use graviplex::{
    AutoTileConfig, NeighborFlags, Tile, TileCollision, TileFlip, TileLayer, Tilemap,
};

#[test]
fn test_tile_creation() {
    let tile = Tile::new("grass");
    assert_eq!(tile.region_name, "grass");
    assert_eq!(tile.collision, TileCollision::NoCollision);
    assert!(tile.animation.is_none());
}

#[test]
fn test_tile_empty() {
    let tile = Tile::empty();
    assert!(tile.is_empty());
    assert_eq!(tile.region_name, "");
}

#[test]
fn test_tile_with_collision() {
    let tile = Tile::new("wall").solid();
    assert_eq!(tile.collision, TileCollision::Solid);
    assert!(tile.collision.is_solid());
}

#[test]
fn test_tile_flip() {
    let tile = Tile::new("grass").flip_h();
    assert_eq!(tile.flip, TileFlip::Horizontal);

    let tile = tile.flip_v();
    assert_eq!(tile.flip, TileFlip::Both);
}

#[test]
fn flipping_twice_restores() {
    let tile = Tile::new("rock").with_flip(TileFlip::Vertical);
    assert_eq!(tile.clone().flip_h().flip_h().flip, TileFlip::Vertical);
    assert_eq!(tile.clone().flip_v().flip_v().flip, TileFlip::Vertical);
    assert_eq!(tile.flip_v().flip, TileFlip::NoFlip);
}

#[test]
fn tile_collision_kinds() {
    assert!(TileCollision::Platform.is_solid());
    assert!(!TileCollision::Water.is_solid());
    assert!(TileCollision::Water.is_water());
    assert!(!TileCollision::Custom(3).is_solid());
    assert!(!TileCollision::Trigger.is_water());
}

#[test]
fn test_tile_layer_creation() {
    let layer = TileLayer::new("ground", 10, 10).with_z_order(0);
    assert_eq!(layer.name, "ground");
    assert_eq!(layer.width, 10);
    assert_eq!(layer.height, 10);
    assert_eq!(layer.z_order, 0);
}

#[test]
fn test_tile_layer_fill() {
    let layer = TileLayer::new("ground", 10, 10).fill(Tile::new("grass"));
    assert_eq!(layer.tile_count(), 100);
    assert_eq!(layer.get(5, 5).unwrap().region_name, "grass");
}

#[test]
fn test_tile_layer_set_get() {
    let mut layer = TileLayer::new("ground", 10, 10);
    layer.set(5, 5, Tile::new("water").with_collision(TileCollision::Water));

    let tile = layer.get(5, 5).unwrap();
    assert_eq!(tile.region_name, "water");
    assert!(tile.collision.is_water());
}

#[test]
fn test_tile_layer_bounds() {
    let layer = TileLayer::new("ground", 10, 10);
    assert!(layer.get(9, 9).is_some());
    assert!(layer.get(10, 10).is_none());
    assert!(layer.get(100, 100).is_none());
}

#[test]
fn layer_defaults_and_edits() {
    let mut layer = TileLayer::new("ground", 4, 3);
    assert!(layer.visible);
    assert_eq!(f32::from_bits(layer.opacity_bits), 1.0);
    assert_eq!(layer.tile_count(), 0);
    layer.set(10, 0, Tile::new("outside"));
    assert_eq!(layer.tile_count(), 0);
    layer.set_region(3, 2, "corner");
    assert_eq!(layer.get(3, 2).unwrap().region_name, "corner");
    if let Some(t) = layer.get_mut(0, 0) {
        t.region_name = "first".to_string();
    }
    assert_eq!(layer.get(0, 0).unwrap().region_name, "first");
    assert!(layer.get_mut(4, 0).is_none());
    let cells = layer.iter();
    assert_eq!(cells.len(), 12);
    assert_eq!(cells[11].0, 3);
    assert_eq!(cells[11].1, 2);
    assert_eq!(cells[11].2.region_name, "corner");
    assert_eq!(cells[5].0, 1);
    assert_eq!(cells[5].1, 1);
}

#[test]
fn fill_rect_clips_to_layer() {
    let mut layer = TileLayer::new("ground", 5, 5);
    layer.fill_rect(3, 3, 10, 10, Tile::new("sand"));
    assert_eq!(layer.tile_count(), 4);
    assert_eq!(layer.get(4, 4).unwrap().region_name, "sand");
    assert_eq!(layer.get(2, 3).unwrap().region_name, "");
    layer.fill_rect(7, 0, 2, 2, Tile::new("nowhere"));
    assert_eq!(layer.tile_count(), 4);
}

#[test]
fn test_tilemap_layers() {
    let mut tilemap = Tilemap::new(10, 10, 16, 16);
    tilemap.add_layer(TileLayer::new("ground", 10, 10).with_z_order(0));
    tilemap.add_layer(TileLayer::new("objects", 10, 10).with_z_order(1));

    assert_eq!(tilemap.layer_count(), 2);
    assert!(tilemap.layer("ground").is_some());
    assert!(tilemap.layer("objects").is_some());
    assert!(tilemap.layer("nonexistent").is_none());
}

#[test]
fn tilemap_sizes() {
    let tilemap = Tilemap::new(32, 32, 16, 16);
    assert_eq!(tilemap.width, 32);
    assert_eq!(tilemap.height, 32);
    assert_eq!(tilemap.tile_width, 16);
    assert_eq!(tilemap.tile_height, 16);
    let sq = Tilemap::square(8, 4);
    assert_eq!((sq.width, sq.height, sq.tile_width, sq.tile_height), (8, 8, 4, 4));
}

#[test]
fn layers_sorted_by_z_then_insertion() {
    let mut tilemap = Tilemap::new(2, 2, 8, 8);
    tilemap.add_layer(TileLayer::new("top", 2, 2).with_z_order(5));
    tilemap.add_layer(TileLayer::new("ground", 2, 2).with_z_order(-1));
    tilemap.add_layer(TileLayer::new("deco_a", 2, 2).with_z_order(1));
    tilemap.add_layer(TileLayer::new("deco_b", 2, 2).with_z_order(1));
    let names: Vec<&str> = tilemap.layers_sorted().iter().map(|l| l.name.as_str()).collect();
    assert_eq!(names, vec!["ground", "deco_a", "deco_b", "top"]);
    let insertion: Vec<&str> = tilemap.layers().map(|l| l.name.as_str()).collect();
    assert_eq!(insertion, vec!["top", "ground", "deco_a", "deco_b"]);
    assert_eq!(tilemap.layer_at(1).unwrap().name, "ground");
    assert!(tilemap.layer_at(4).is_none());
}

#[test]
fn layer_lookup_finds_first_match_and_edits() {
    let mut tilemap = Tilemap::new(2, 2, 8, 8);
    tilemap.add_layer(TileLayer::new("dup", 2, 2).with_z_order(1));
    tilemap.add_layer(TileLayer::new("dup", 2, 2).with_z_order(2));
    assert_eq!(tilemap.layer("dup").unwrap().z_order, 1);
    tilemap.layer_mut("dup").unwrap().set_region(0, 0, "x");
    assert_eq!(tilemap.layer_at(0).unwrap().get(0, 0).unwrap().region_name, "x");
    tilemap.layer_at_mut(1).unwrap().z_order = 9;
    assert_eq!(tilemap.layer_at(1).unwrap().z_order, 9);
    assert!(tilemap.layer_mut("none").is_none());
}

#[test]
fn collision_at_takes_first_colliding_layer() {
    let mut tilemap = Tilemap::new(10, 10, 16, 16);
    let mut ground = TileLayer::new("ground", 10, 10);
    ground.set(5, 5, Tile::new("wall").solid());
    ground.set(1, 1, Tile::new("pond").with_collision(TileCollision::Water));
    let mut objects = TileLayer::new("objects", 10, 10);
    objects.set(1, 1, Tile::new("crate").solid());
    objects.set(2, 2, Tile::new("crate").solid());
    tilemap.add_layer(ground);
    tilemap.add_layer(objects);

    assert_eq!(tilemap.collision_at(5, 5), Some(TileCollision::Solid));
    assert_eq!(tilemap.collision_at(1, 1), Some(TileCollision::Water));
    assert_eq!(tilemap.collision_at(2, 2), Some(TileCollision::Solid));
    assert_eq!(tilemap.collision_at(4, 4), None);
    assert_eq!(tilemap.collision_at(40, 4), None);
    assert!(tilemap.is_blocked_at(5, 5));
    assert!(!tilemap.is_blocked_at(1, 1));
    assert!(!tilemap.is_blocked_at(4, 4));
}

#[test]
fn test_neighbor_flags_basic() {
    let flags = NeighborFlags::new();
    assert_eq!(flags.tile_index(), 0);
    assert!(!flags.has_top());
    assert!(!flags.has_right());
    assert!(!flags.has_bottom());
    assert!(!flags.has_left());
}

#[test]
fn test_neighbor_flags_individual() {
    let top = NeighborFlags::new().with_top();
    assert_eq!(top.tile_index(), 1);
    assert!(top.has_top());

    let right = NeighborFlags::new().with_right();
    assert_eq!(right.tile_index(), 2);
    assert!(right.has_right());

    let bottom = NeighborFlags::new().with_bottom();
    assert_eq!(bottom.tile_index(), 4);
    assert!(bottom.has_bottom());

    let left = NeighborFlags::new().with_left();
    assert_eq!(left.tile_index(), 8);
    assert!(left.has_left());
}

#[test]
fn test_neighbor_flags_combinations() {
    let flags = NeighborFlags::new().with_top().with_right();
    assert_eq!(flags.tile_index(), 3);

    let flags = NeighborFlags::new().with_top().with_bottom();
    assert_eq!(flags.tile_index(), 5);

    let flags = NeighborFlags::new().with_right().with_left();
    assert_eq!(flags.tile_index(), 10);

    let flags = NeighborFlags::new().with_top().with_right().with_bottom().with_left();
    assert_eq!(flags.tile_index(), 15);
}

#[test]
fn neighbor_flag_bits_are_idempotent() {
    let f = NeighborFlags::new().with_left().with_left().with_top();
    assert_eq!(f.tile_index(), 9);
    assert!(f.has_left() && f.has_top() && !f.has_right() && !f.has_bottom());
    assert_eq!(NeighborFlags::TOP | NeighborFlags::BOTTOM, 5);
}

#[test]
fn test_autotile_config_prefix() {
    let config = AutoTileConfig::new("water_");

    assert_eq!(config.get_region_by_index(0), "water_0");
    assert_eq!(config.get_region_by_index(5), "water_5");
    assert_eq!(config.get_region_by_index(15), "water_15");

    let flags = NeighborFlags::new().with_top().with_bottom();
    assert_eq!(config.get_region(flags), "water_5");
}

#[test]
fn test_autotile_config_explicit_regions() {
    let config = AutoTileConfig::with_regions([
        "isolated", "top_only", "right_only", "top_right",
        "bottom_only", "vertical", "right_bottom", "top_right_bottom",
        "left_only", "top_left", "horizontal", "top_right_left",
        "bottom_left", "top_bottom_left", "right_bottom_left", "center",
    ]);

    assert_eq!(config.get_region_by_index(0), "isolated");
    assert_eq!(config.get_region_by_index(5), "vertical");
    assert_eq!(config.get_region_by_index(10), "horizontal");
    assert_eq!(config.get_region_by_index(15), "center");
}

#[test]
fn autotile_index_wraps_mod_16_and_prefix_takes_any_flags() {
    let config = AutoTileConfig::new("g");
    assert_eq!(config.get_region_by_index(21), "g5");
    assert_eq!(config.get_region_by_index(255), "g15");
    assert_eq!(config.get_region(NeighborFlags(200)), "g200");
    assert_eq!(config.get_region(NeighborFlags(99)), "g99");
}

#[test]
fn test_apply_autotile_isolated() {
    let mut layer = TileLayer::new("test", 3, 3);
    layer.set(1, 1, Tile::new("water_0"));

    let config = AutoTileConfig::new("water_");
    layer.apply_autotile(&config, |t| t.region_name.starts_with("water_"));

    assert_eq!(layer.get(1, 1).unwrap().region_name, "water_0");
}

#[test]
fn test_apply_autotile_horizontal_line() {
    let mut layer = TileLayer::new("test", 5, 3);
    layer.set(1, 1, Tile::new("water_0"));
    layer.set(2, 1, Tile::new("water_0"));
    layer.set(3, 1, Tile::new("water_0"));

    let config = AutoTileConfig::new("water_");
    layer.apply_autotile(&config, |t| t.region_name.starts_with("water_"));

    assert_eq!(layer.get(1, 1).unwrap().region_name, "water_2");
    assert_eq!(layer.get(2, 1).unwrap().region_name, "water_10");
    assert_eq!(layer.get(3, 1).unwrap().region_name, "water_8");
}

#[test]
fn test_apply_autotile_vertical_line() {
    let mut layer = TileLayer::new("test", 3, 5);
    layer.set(1, 1, Tile::new("water_0"));
    layer.set(1, 2, Tile::new("water_0"));
    layer.set(1, 3, Tile::new("water_0"));

    let config = AutoTileConfig::new("water_");
    layer.apply_autotile(&config, |t| t.region_name.starts_with("water_"));

    assert_eq!(layer.get(1, 1).unwrap().region_name, "water_4");
    assert_eq!(layer.get(1, 2).unwrap().region_name, "water_5");
    assert_eq!(layer.get(1, 3).unwrap().region_name, "water_1");
}

#[test]
fn test_apply_autotile_2x2_block() {
    let mut layer = TileLayer::new("test", 4, 4);
    layer.set(1, 1, Tile::new("water_0"));
    layer.set(2, 1, Tile::new("water_0"));
    layer.set(1, 2, Tile::new("water_0"));
    layer.set(2, 2, Tile::new("water_0"));

    let config = AutoTileConfig::new("water_");
    layer.apply_autotile(&config, |t| t.region_name.starts_with("water_"));

    assert_eq!(layer.get(1, 1).unwrap().region_name, "water_6");
    assert_eq!(layer.get(2, 1).unwrap().region_name, "water_12");
    assert_eq!(layer.get(1, 2).unwrap().region_name, "water_3");
    assert_eq!(layer.get(2, 2).unwrap().region_name, "water_9");
}

#[test]
fn test_apply_autotile_3x3_filled() {
    let mut layer = TileLayer::new("test", 5, 5);
    for y in 1..=3 {
        for x in 1..=3 {
            layer.set(x, y, Tile::new("water_0"));
        }
    }

    let config = AutoTileConfig::new("water_");
    layer.apply_autotile(&config, |t| t.region_name.starts_with("water_"));

    assert_eq!(layer.get(2, 2).unwrap().region_name, "water_15");

    assert_eq!(layer.get(1, 1).unwrap().region_name, "water_6");
    assert_eq!(layer.get(3, 1).unwrap().region_name, "water_12");
    assert_eq!(layer.get(1, 3).unwrap().region_name, "water_3");
    assert_eq!(layer.get(3, 3).unwrap().region_name, "water_9");

    assert_eq!(layer.get(2, 1).unwrap().region_name, "water_14");
    assert_eq!(layer.get(2, 3).unwrap().region_name, "water_11");
    assert_eq!(layer.get(1, 2).unwrap().region_name, "water_7");
    assert_eq!(layer.get(3, 2).unwrap().region_name, "water_13");
}

#[test]
fn test_fill_autotile() {
    let mut layer = TileLayer::new("test", 5, 5);
    let config = AutoTileConfig::new("grass_");

    layer.fill_autotile(1, 1, 3, 3, &config);

    assert_eq!(layer.get(2, 2).unwrap().region_name, "grass_15");

    assert_eq!(layer.get(1, 1).unwrap().region_name, "grass_6");
    assert_eq!(layer.get(3, 3).unwrap().region_name, "grass_9");
}

#[test]
fn autotile_leaves_non_matching_and_other_fields() {
    let mut layer = TileLayer::new("test", 3, 1);
    layer.set(0, 0, Tile::new("water_0").solid());
    layer.set(1, 0, Tile::new("stone"));
    layer.set(2, 0, Tile::new("water_0").flip_h());
    let config = AutoTileConfig::new("water_");
    layer.apply_autotile(&config, |t| t.region_name.starts_with("water_"));
    assert_eq!(layer.get(0, 0).unwrap().region_name, "water_0");
    assert_eq!(layer.get(0, 0).unwrap().collision, TileCollision::Solid);
    assert_eq!(layer.get(1, 0).unwrap().region_name, "stone");
    assert_eq!(layer.get(2, 0).unwrap().flip, TileFlip::Horizontal);
}

#[test]
fn fill_autotile_with_explicit_regions_joins_existing_tiles() {
    let config = AutoTileConfig::with_regions([
        "r0", "r1", "r2", "r3", "r4", "r5", "r6", "r7", "r8", "r9", "r10", "r11", "r12",
        "r13", "r14", "r15",
    ]);
    let mut layer = TileLayer::new("test", 4, 1);
    layer.set(0, 0, Tile::new("r5"));
    layer.set(3, 0, Tile::new("other"));
    layer.fill_autotile(1, 0, 2, 1, &config);
    // Cell 0 belongs to the config, so it joins its right neighbour.
    assert_eq!(layer.get(0, 0).unwrap().region_name, "r2");
    assert_eq!(layer.get(1, 0).unwrap().region_name, "r10");
    assert_eq!(layer.get(2, 0).unwrap().region_name, "r8");
    assert_eq!(layer.get(3, 0).unwrap().region_name, "other");
}
