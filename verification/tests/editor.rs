use graviplex::asset_palette::text_contains;
use graviplex::input::{
    KEY_A, KEY_B, KEY_BACKSPACE, KEY_CONTROL_LEFT, KEY_CONTROL_RIGHT, KEY_DELETE, KEY_E, KEY_G, KEY_H, KEY_P,
    KEY_SHIFT_LEFT, KEY_SUPER_LEFT, KEY_SUPER_RIGHT, KEY_V, KEY_Z, MOUSE_LEFT,
};
use graviplex::{
    AssetEntry, AssetKind, AssetPalette, ColorBits, EditorConfig, EditorTool, GridConfig, InputState, MapData, MapEditor,
    MapObject, MapObjectId, ObjectProperty, ObjectVisual, PlacedObject, PropertyValue,
    SerializedObject, SerializedProperty, TextureId, ToolState, Vec2Bits,
};

fn v(x: f32, y: f32) -> Vec2Bits {
    Vec2Bits::new(x.to_bits(), y.to_bits())
}

/// Leaves a position as it is (no grid).
fn unsnapped(p: Vec2Bits) -> Vec2Bits {
    p
}

fn red() -> ColorBits {
    ColorBits::rgba(1.0f32.to_bits(), 0, 0, 1.0f32.to_bits())
}

fn editor_with_wall() -> MapEditor {
    let mut e = MapEditor::new();
    e.register_rect("Wall", 128.0f32.to_bits(), 32.0f32.to_bits(), red());
    e
}

#[test]
fn map_object_constructors() {
    let t = MapObject::texture("Tree", "tree_png", v(64.0, 64.0));
    assert_eq!(t.name, "Tree");
    assert_eq!(t.display_name, "Tree");
    assert_eq!(t.category, "Default");
    assert_eq!(t.pivot, v(0.5, 0.5));
    assert!(t.rotatable && t.scalable);
    assert!(t.collision.is_none());
    match &t.visual {
        ObjectVisual::Texture { texture_name, tint } => {
            assert_eq!(texture_name, "tree_png");
            assert_eq!(*tint, ColorBits::white());
        }
        _ => panic!("expected a texture"),
    }
    let n = MapObject::nine_slice("Panel", "panel_png", v(100.0, 50.0), 1, 2, 3, 4);
    assert_eq!(n.category, "UI");
    assert!(!n.rotatable);
    let r = MapObject::rect("Wall", 128.0f32.to_bits(), 32.0f32.to_bits(), red())
        .with_category("Environment")
        .with_layer(3)
        .with_display_name("Stone wall")
        .with_property(ObjectProperty::integer("hp", 10));
    assert_eq!(r.category, "Environment");
    assert_eq!(r.default_layer, 3);
    assert_eq!(r.display_name, "Stone wall");
    assert_eq!(r.properties.len(), 1);
    assert_eq!(r.size, v(128.0, 32.0));
    let s = MapObject::sprite_sheet("Coin", "coin", 8, v(16.0, 16.0));
    match &s.visual {
        ObjectVisual::SpriteSheet { frame_count, current_frame, fps_bits, .. } => {
            assert_eq!(*frame_count, 8);
            assert_eq!(*current_frame, 0);
            assert_eq!(*fps_bits, 10.0f32.to_bits());
        }
        _ => panic!("expected a sprite sheet"),
    }
}

#[test]
fn placed_object_builders() {
    let o = PlacedObject::new(MapObjectId(5), "Wall", v(1.0, 2.0))
        .with_rotation(0.5f32.to_bits())
        .with_scale(v(2.0, 2.0))
        .with_layer(-1)
        .with_name("gate");
    assert_eq!(o.id, MapObjectId(5));
    assert_eq!(o.object_type, "Wall");
    assert_eq!(o.position, v(1.0, 2.0));
    assert_eq!(o.rotation_bits, 0.5f32.to_bits());
    assert_eq!(o.scale, v(2.0, 2.0));
    assert_eq!(o.layer, -1);
    assert_eq!(o.instance_name.as_deref(), Some("gate"));
    assert!(!o.selected && !o.locked);
    let c = o.clone();
    assert_eq!(c.id, o.id);
    assert_eq!(c.instance_name, o.instance_name);
}

#[test]
fn palette_register_and_select() {
    let mut p = AssetPalette::new();
    assert!(p.is_empty());
    p.register(MapObject::texture("Tree", "tree", v(1.0, 1.0)));
    p.register(MapObject::texture("Rock", "rock", v(1.0, 1.0)).with_category("Stones"));
    p.register(MapObject::texture("Bush", "bush", v(1.0, 1.0)));
    assert_eq!(p.len(), 3);
    assert_eq!(p.selected(), Some("Tree"));
    assert_eq!(p.selected_object().unwrap().name, "Tree");
    assert_eq!(p.categories(), vec!["Default".to_string(), "Stones".to_string()]);
    assert_eq!(p.assets_in_category("Default").unwrap(), &vec!["Tree".to_string(), "Bush".to_string()]);
    assert!(p.assets_in_category("Water").is_none());
    assert!(p.get("Rock").is_some());
    assert!(p.get_object("Lava").is_none());
    p.select("Rock");
    assert_eq!(p.selected(), Some("Rock"));
    p.deselect();
    assert_eq!(p.selected(), None);
    assert!(p.selected_object().is_none());
}

#[test]
fn palette_reregister_replaces() {
    let mut p = AssetPalette::new();
    p.register(MapObject::texture("Tree", "a", v(1.0, 1.0)));
    p.register(MapObject::texture("Tree", "b", v(2.0, 2.0)));
    assert_eq!(p.len(), 1);
    assert_eq!(p.get_object("Tree").unwrap().size, v(2.0, 2.0));
    // The category lists the name once per registration.
    assert_eq!(p.assets_in_category("Default").unwrap().len(), 2);
}

#[test]
fn palette_filter_and_categories() {
    let mut p = AssetPalette::new();
    p.register(MapObject::texture("BigTree", "t", v(1.0, 1.0)).with_category("Nature"));
    assert!(p.matches_filter("BigTree"));
    p.set_filter("TREE");
    assert_eq!(p.search_filter(), "tree");
    assert!(p.matches_filter("BigTree"));
    assert!(!p.matches_filter("Missing"));
    p.set_filter("natu");
    assert!(p.matches_filter("BigTree"));
    p.set_filter("rock");
    assert!(!p.matches_filter("BigTree"));
    p.clear_filter();
    assert_eq!(p.search_filter(), "");
    assert!(p.matches_filter("Missing"));

    assert!(p.is_category_expanded("Nature"));
    p.toggle_category("Nature");
    assert!(!p.is_category_expanded("Nature"));
    p.toggle_category("Nature");
    assert!(p.is_category_expanded("Nature"));
    p.toggle_category("Unknown");
    assert!(p.is_category_expanded("Unknown"));
}

#[test]
fn palette_convert_asset() {
    let mut p = AssetPalette::new();
    p.register(MapObject::texture("Box", "box_png", v(3.0, 4.0)));
    p.convert_asset_to("Box", AssetKind::NineSlice);
    match &p.get_object("Box").unwrap().visual {
        ObjectVisual::NineSlice { texture_name, left, right, top, bottom, .. } => {
            assert_eq!(texture_name, "Box");
            assert_eq!((*left, *right, *top, *bottom), (8, 8, 8, 8));
        }
        _ => panic!("expected a nine-slice"),
    }
    p.convert_asset_to("Box", AssetKind::Rect);
    assert!(matches!(p.get_object("Box").unwrap().visual, ObjectVisual::Rect { .. }));
    assert_eq!(p.get_object("Box").unwrap().size, v(3.0, 4.0));
    p.convert_asset_to_circle("Box", 2.0f32.to_bits(), v(4.0, 4.0));
    let obj = p.get_object("Box").unwrap();
    assert!(matches!(obj.visual, ObjectVisual::Circle { radius_bits, .. } if radius_bits == 2.0f32.to_bits()));
    assert_eq!(obj.size, v(4.0, 4.0));
    p.convert_asset_to("Nothing", AssetKind::Texture);
    assert_eq!(p.len(), 1);
}

#[test]
fn editor_place_and_get() {
    let mut e = editor_with_wall();
    assert_eq!(e.place_object("Missing", v(0.0, 0.0), unsnapped, MapObjectId(1)), None);
    assert!(e.objects().is_empty());
    assert!(!e.is_dirty());
    let id = e.place_object("Wall", v(32.0, 64.0), unsnapped, MapObjectId(7)).unwrap();
    assert_eq!(id, MapObjectId(7));
    assert!(e.is_dirty());
    let o = e.get_object(id).unwrap();
    assert_eq!(o.object_type, "Wall");
    assert_eq!(o.position, v(32.0, 64.0));
    assert!(e.get_object(MapObjectId(8)).is_none());
    e.mark_saved();
    assert!(!e.is_dirty());
}

#[test]
fn editor_delete_keeps_index() {
    let mut e = editor_with_wall();
    for i in 1..=4u64 {
        e.place_object("Wall", v(i as f32, 0.0), unsnapped, MapObjectId(i)).unwrap();
    }
    e.select(MapObjectId(2));
    assert!(e.delete_object(MapObjectId(2)));
    assert!(!e.delete_object(MapObjectId(2)));
    assert_eq!(e.objects().len(), 3);
    // The last object moved into the gap.
    assert_eq!(e.objects()[1].id, MapObjectId(4));
    for i in [1u64, 3, 4] {
        assert_eq!(e.get_object(MapObjectId(i)).unwrap().position, v(i as f32, 0.0));
    }
    assert!(e.get_object(MapObjectId(2)).is_none());
    assert!(e.state.selected.is_empty());
}

#[test]
fn editor_selection() {
    let mut e = editor_with_wall();
    e.place_object("Wall", v(0.0, 0.0), unsnapped, MapObjectId(1)).unwrap();
    e.place_object("Wall", v(1.0, 0.0), unsnapped, MapObjectId(2)).unwrap();
    e.select(MapObjectId(1));
    e.select(MapObjectId(1));
    assert_eq!(e.state.selected, vec![MapObjectId(1)]);
    assert!(e.get_object(MapObjectId(1)).unwrap().selected);
    e.toggle_select(MapObjectId(2));
    assert_eq!(e.state.selected, vec![MapObjectId(1), MapObjectId(2)]);
    e.toggle_select(MapObjectId(1));
    assert_eq!(e.state.selected, vec![MapObjectId(2)]);
    assert!(!e.get_object(MapObjectId(1)).unwrap().selected);
    e.clear_selection();
    assert!(e.state.selected.is_empty());
    assert!(!e.get_object(MapObjectId(2)).unwrap().selected);
    e.select_all();
    assert_eq!(e.state.selected, vec![MapObjectId(1), MapObjectId(2)]);
    e.delete_selected();
    assert!(e.objects().is_empty());
    assert!(e.state.selected.is_empty());
}

#[test]
fn editor_undo_redo() {
    let mut e = editor_with_wall();
    e.place_object("Wall", v(0.0, 0.0), unsnapped, MapObjectId(1)).unwrap();
    e.place_object("Wall", v(1.0, 0.0), unsnapped, MapObjectId(2)).unwrap();
    e.select(MapObjectId(2));
    e.undo();
    assert_eq!(e.objects().len(), 1);
    assert!(e.get_object(MapObjectId(2)).is_none());
    assert!(e.state.selected.is_empty());
    e.redo();
    assert_eq!(e.objects().len(), 2);
    assert!(e.get_object(MapObjectId(2)).is_some());
    e.undo();
    e.undo();
    assert!(e.objects().is_empty());
    e.undo();
    assert!(e.objects().is_empty());
    e.redo();
    e.redo();
    assert_eq!(e.objects().len(), 2);
    e.redo();
    assert_eq!(e.objects().len(), 2);
}

#[test]
fn editor_undo_limit() {
    let mut config = EditorConfig::default();
    config.max_undo_steps = 1;
    let mut e = MapEditor::with_config(config);
    e.register_object(MapObject::texture("T", "t", v(1.0, 1.0)));
    e.place_object("T", v(0.0, 0.0), unsnapped, MapObjectId(1)).unwrap();
    e.place_object("T", v(0.0, 0.0), unsnapped, MapObjectId(2)).unwrap();
    e.undo();
    e.undo();
    assert_eq!(e.objects().len(), 1);
}

#[test]
fn editor_move_and_clear() {
    let mut e = editor_with_wall();
    e.place_object("Wall", v(0.0, 0.0), unsnapped, MapObjectId(1)).unwrap();
    e.move_object(MapObjectId(1), v(5.0, 6.0), unsnapped);
    assert_eq!(e.get_object(MapObjectId(1)).unwrap().position, v(5.0, 6.0));
    e.select(MapObjectId(1));
    e.move_selected(|p: Vec2Bits| Vec2Bits::new(p.y_bits, p.x_bits));
    assert_eq!(e.get_object(MapObjectId(1)).unwrap().position, v(6.0, 5.0));
    e.clear();
    assert!(e.objects().is_empty());
    assert!(e.state.selected.is_empty());
    e.undo();
    assert_eq!(e.objects().len(), 1);
}

#[test]
fn editor_enable_toggle() {
    let mut e = MapEditor::new();
    assert!(!e.is_enabled());
    e.toggle();
    assert!(e.is_enabled());
    e.disable();
    assert!(!e.is_enabled());
    e.enable();
    assert!(e.is_enabled());
}

#[test]
fn editor_map_data_round_trip() {
    let mut e = editor_with_wall();
    e.place_object("Wall", v(3.0, 4.0), unsnapped, MapObjectId(1)).unwrap();
    let data = e.to_map_data();
    assert_eq!(data.name, "Untitled");
    assert_eq!(data.version, 1);
    assert_eq!(data.objects.len(), 1);
    assert_eq!(data.objects[0].x_bits, 3.0f32.to_bits());

    let mut f = MapEditor::new();
    f.from_map_data(&data, &[MapObjectId(9)]);
    assert!(!f.is_dirty());
    let o = f.get_object(MapObjectId(9)).unwrap();
    assert_eq!(o.object_type, "Wall");
    assert_eq!(o.position, v(3.0, 4.0));
}

#[test]
fn serialized_object_round_trip() {
    let mut o = PlacedObject::new(MapObjectId(3), "Door", v(1.0, 2.0)).with_layer(4).with_name("front");
    o.locked = true;
    o.property_overrides.push(ObjectProperty::integer("hp", 3));
    o.property_overrides.push(ObjectProperty::string("key", "gold"));
    o.property_overrides.push(ObjectProperty::integer("hp", 5));
    let so = SerializedObject::from_placed(&o);
    assert_eq!(so.layer, 4);
    assert!(so.locked);
    assert_eq!(so.name.as_deref(), Some("front"));
    assert_eq!(so.properties.len(), 2);
    let back = so.to_placed(MapObjectId(11));
    assert_eq!(back.id, MapObjectId(11));
    assert_eq!(back.position, v(1.0, 2.0));
    assert!(back.locked);
    assert_eq!(back.property_overrides.len(), 2);
    assert_eq!(back.property_overrides[0].name, "hp");
    assert!(matches!(back.property_overrides[0].value, PropertyValue::Int(5)));
    assert!(back.property_overrides[1].editable);
}

#[test]
fn serialized_property_values() {
    let c = PropertyValue::Color(red());
    match SerializedProperty::from_value(&c) {
        SerializedProperty::Color(a) => assert_eq!(a, [1.0f32.to_bits(), 0, 0, 1.0f32.to_bits()]),
        _ => panic!("expected a color"),
    }
    let back = SerializedProperty::Vec2([1, 2]).to_property_value();
    assert!(matches!(back, PropertyValue::Vec2(p) if p == Vec2Bits::new(1, 2)));
}

#[test]
fn map_data_builders() {
    let d = MapData::new("Level").with_size(10.0f32.to_bits(), 20.0f32.to_bits()).with_property("author", "me");
    assert_eq!(d.name, "Level");
    assert_eq!(d.width_bits, Some(10.0f32.to_bits()));
    assert_eq!(d.properties.get("author").map(|s| s.as_str()), Some("me"));
    let d = d.with_property("author", "you");
    assert_eq!(d.properties.len(), 1);
    assert_eq!(d.properties.get("author").map(|s| s.as_str()), Some("you"));
    let u = MapData::default();
    assert_eq!(u.name, "Untitled");
    assert!(u.objects.is_empty());
}

#[test]
fn tool_state_and_grid() {
    let mut t = ToolState::new();
    assert_eq!(t.tool, EditorTool::Select);
    assert_eq!(t.paint_spacing_bits, 32.0f32.to_bits());
    t.begin(v(1.0, 1.0));
    assert!(t.active);
    assert_eq!(t.start_pos, Some(v(1.0, 1.0)));
    t.update(v(2.0, 2.0));
    assert_eq!(t.current_pos, Some(v(2.0, 2.0)));
    t.record_paint(v(3.0, 3.0));
    t.end();
    assert!(!t.active);
    assert_eq!(t.start_pos, None);
    assert_eq!(t.last_paint_pos, None);
    let g = GridConfig::default();
    assert!(g.enabled);
    assert_eq!(g.cell_size, v(32.0, 32.0));
    assert_eq!(g.major_interval, 4);
    assert_eq!(ToolState::default().paint_spacing_bits, 0);
    let c = EditorConfig::default();
    assert_eq!(c.max_undo_steps, 50);
    assert_eq!(c.panel_width_bits, 250.0f32.to_bits());
    assert_eq!(c.selection_color, ColorBits::rgba(0.2f32.to_bits(), 0.6f32.to_bits(), 1.0f32.to_bits(), 0.8f32.to_bits()));
}

#[test]
fn editor_get_object_mut_and_locking() {
    let mut e = editor_with_wall();
    e.place_object("Wall", v(0.0, 0.0), unsnapped, MapObjectId(1)).unwrap();
    assert!(e.get_object_mut(MapObjectId(2)).is_none());
    e.get_object_mut(MapObjectId(1)).unwrap().locked = true;
    e.move_object(MapObjectId(1), v(9.0, 9.0), unsnapped);
    assert_eq!(e.get_object(MapObjectId(1)).unwrap().position, v(0.0, 0.0));
    e.select_all();
    assert!(e.state.selected.is_empty());
    e.get_object_mut(MapObjectId(1)).unwrap().locked = false;
    e.move_object(MapObjectId(1), v(9.0, 9.0), unsnapped);
    assert_eq!(e.get_object(MapObjectId(1)).unwrap().position, v(9.0, 9.0));
}

#[test]
fn palette_search_filter_mut() {
    let mut p = AssetPalette::new();
    p.register(MapObject::texture("Oak", "oak", v(1.0, 1.0)));
    p.search_filter_mut().push_str("zzz");
    assert_eq!(p.search_filter(), "zzz");
    assert!(!p.matches_filter("Oak"));
    p.search_filter_mut().clear();
    assert!(p.matches_filter("Oak"));
}

#[test]
fn delete_after_place_restores_objects() {
    let mut e = editor_with_wall();
    e.place_object("Wall", v(1.0, 0.0), unsnapped, MapObjectId(1)).unwrap();
    e.place_object("Wall", v(2.0, 0.0), unsnapped, MapObjectId(2)).unwrap();
    let before: Vec<MapObjectId> = e.objects().iter().map(|o| o.id).collect();
    e.place_object("Wall", v(3.0, 0.0), unsnapped, MapObjectId(3)).unwrap();
    assert!(e.delete_object(MapObjectId(3)));
    let after: Vec<MapObjectId> = e.objects().iter().map(|o| o.id).collect();
    assert_eq!(before, after);
}

#[test]
fn redo_after_undo_restores_objects() {
    let mut e = editor_with_wall();
    e.place_object("Wall", v(1.0, 0.0), unsnapped, MapObjectId(1)).unwrap();
    e.place_object("Wall", v(2.0, 0.0), unsnapped, MapObjectId(2)).unwrap();
    e.delete_object(MapObjectId(1));
    let before: Vec<MapObjectId> = e.objects().iter().map(|o| o.id).collect();
    e.undo();
    assert_eq!(e.objects().len(), 2);
    e.redo();
    let after: Vec<MapObjectId> = e.objects().iter().map(|o| o.id).collect();
    assert_eq!(before, after);
}

#[test]
fn toggle_twice_restores_selection() {
    let mut e = editor_with_wall();
    e.place_object("Wall", v(1.0, 0.0), unsnapped, MapObjectId(1)).unwrap();
    e.select(MapObjectId(5));
    let before = e.state.selected.clone();
    e.toggle_select(MapObjectId(1));
    e.toggle_select(MapObjectId(1));
    assert_eq!(e.state.selected, before);
    assert!(!e.get_object(MapObjectId(1)).unwrap().selected);
}

#[test]
fn history_never_exceeds_limit() {
    let mut config = EditorConfig::default();
    config.max_undo_steps = 3;
    let mut e = MapEditor::with_config(config);
    e.register_object(MapObject::texture("T", "t", v(1.0, 1.0)));
    for i in 1..=10u64 {
        e.place_object("T", v(0.0, 0.0), unsnapped, MapObjectId(i)).unwrap();
    }
    for _ in 0..10 {
        e.undo();
    }
    // Only the last three placements can be undone.
    assert_eq!(e.objects().len(), 7);
}

#[test]
fn text_contains_runs() {
    assert!(text_contains("bigtree", "tree"));
    assert!(text_contains("bigtree", ""));
    assert!(text_contains("", ""));
    assert!(!text_contains("tre", "tree"));
    assert!(!text_contains("BigTree", "tree"));
    assert!(text_contains("aab", "ab"));
}

fn plus(a: Vec2Bits, b: Vec2Bits) -> Vec2Bits {
    v(f32::from_bits(a.x_bits) + f32::from_bits(b.x_bits), f32::from_bits(a.y_bits) + f32::from_bits(b.y_bits))
}

fn minus(a: Vec2Bits, b: Vec2Bits) -> Vec2Bits {
    v(f32::from_bits(a.x_bits) - f32::from_bits(b.x_bits), f32::from_bits(a.y_bits) - f32::from_bits(b.y_bits))
}

/// Snaps to a grid of 10 by 10 cells.
fn snap10(p: Vec2Bits) -> Vec2Bits {
    let s = |c: u32| ((f32::from_bits(c) / 10.0).round() * 10.0).to_bits();
    Vec2Bits::new(s(p.x_bits), s(p.y_bits))
}

fn keys(held: &[u32], pressed: &[u32]) -> InputState {
    let mut input = InputState::new();
    for &k in held {
        input.handle_keyboard_event(k, true);
    }
    input.begin_frame();
    for &k in pressed {
        input.handle_keyboard_event(k, true);
    }
    input
}

fn frame(
    e: &mut MapEditor,
    input: &InputState,
    mouse: Vec2Bits,
    hovered: Option<MapObjectId>,
    in_rect: &[MapObjectId],
    paint_due: bool,
    new_id: u64,
) -> bool {
    e.handle_input(input, mouse, hovered, in_rect, paint_due, snap10, plus, minus, MapObjectId(new_id))
}

fn enabled_with_two_walls() -> MapEditor {
    let mut e = editor_with_wall();
    e.enable();
    e.place_object("Wall", v(0.0, 0.0), unsnapped, MapObjectId(1)).unwrap();
    e.place_object("Wall", v(100.0, 0.0), unsnapped, MapObjectId(2)).unwrap();
    e
}

#[test]
fn input_ignored_when_disabled_or_focused() {
    let mut e = enabled_with_two_walls();
    e.select(MapObjectId(1));
    e.disable();
    assert!(!frame(&mut e, &keys(&[], &[KEY_DELETE]), v(5.0, 5.0), None, &[], false, 9));
    assert_eq!(e.objects().len(), 2);
    assert_eq!(e.state.mouse_world_pos, Vec2Bits::zero());
    e.enable();
    e.state.panel_focused = true;
    assert!(!frame(&mut e, &keys(&[], &[KEY_DELETE]), v(5.0, 5.0), None, &[], false, 9));
    assert_eq!(e.objects().len(), 2);
}

#[test]
fn delete_and_backspace_delete_the_selection() {
    let mut e = enabled_with_two_walls();
    e.select(MapObjectId(1));
    assert!(frame(&mut e, &keys(&[], &[KEY_DELETE]), v(5.0, 5.0), None, &[], false, 9));
    assert_eq!(e.objects().len(), 1);
    assert_eq!(e.objects()[0].id, MapObjectId(2));
    assert_eq!(e.state.mouse_world_pos, v(5.0, 5.0));
    e.select(MapObjectId(2));
    assert!(frame(&mut e, &keys(&[], &[KEY_BACKSPACE]), v(5.0, 5.0), None, &[], false, 9));
    assert!(e.objects().is_empty());
}

#[test]
fn ctrl_z_undoes_and_shift_redoes() {
    let mut e = enabled_with_two_walls();
    assert!(frame(&mut e, &keys(&[KEY_CONTROL_LEFT], &[KEY_Z]), v(0.0, 0.0), None, &[], false, 9));
    assert_eq!(e.objects().len(), 1);
    assert!(frame(&mut e, &keys(&[KEY_SUPER_RIGHT], &[KEY_Z]), v(0.0, 0.0), None, &[], false, 9));
    assert!(e.objects().is_empty());
    assert!(frame(&mut e, &keys(&[KEY_CONTROL_RIGHT, KEY_SHIFT_LEFT], &[KEY_Z]), v(0.0, 0.0), None, &[], false, 9));
    assert_eq!(e.objects().len(), 1);
    // Z without a command key is no shortcut: the select tool sees no click.
    assert!(!frame(&mut e, &keys(&[], &[KEY_Z]), v(0.0, 0.0), None, &[], false, 9));
    assert_eq!(e.objects().len(), 1);
}

#[test]
fn ctrl_a_selects_all_and_tool_keys() {
    let mut e = enabled_with_two_walls();
    e.get_object_mut(MapObjectId(2)).unwrap().locked = true;
    assert!(frame(&mut e, &keys(&[KEY_SUPER_LEFT], &[KEY_A]), v(0.0, 0.0), None, &[], false, 9));
    assert_eq!(e.state.selected, vec![MapObjectId(1)]);
    for (key, tool) in [
        (KEY_P, EditorTool::Place),
        (KEY_E, EditorTool::Erase),
        (KEY_H, EditorTool::Pan),
        (KEY_B, EditorTool::Paint),
        (KEY_V, EditorTool::Select),
    ] {
        assert!(frame(&mut e, &keys(&[], &[key]), v(0.0, 0.0), None, &[], false, 9));
        assert_eq!(e.tool.tool, tool);
    }
    assert!(e.config.grid.enabled);
    assert!(frame(&mut e, &keys(&[], &[KEY_G]), v(0.0, 0.0), None, &[], false, 9));
    assert!(!e.config.grid.enabled);
    assert!(frame(&mut e, &keys(&[], &[KEY_G]), v(0.0, 0.0), None, &[], false, 9));
    assert!(e.config.grid.enabled);
}

#[test]
fn select_tool_click_drag_release() {
    let mut e = enabled_with_two_walls();
    e.select(MapObjectId(2));
    let mut input = InputState::new();
    input.handle_mouse_input(true, MOUSE_LEFT);
    // A click on wall 1 selects it alone and starts a drag.
    assert!(frame(&mut e, &input, v(3.0, 4.0), Some(MapObjectId(1)), &[], false, 9));
    assert_eq!(e.state.selected, vec![MapObjectId(1)]);
    assert_eq!(e.state.hovered, Some(MapObjectId(1)));
    assert_eq!(e.state.dragging, Some(MapObjectId(1)));
    assert_eq!(e.tool.drag_offset, Some(v(-3.0, -4.0)));
    // Holding the button drags: wall 1 follows the mouse, snapped.
    input.begin_frame();
    assert!(frame(&mut e, &input, v(24.0, 18.0), Some(MapObjectId(1)), &[], false, 9));
    assert_eq!(e.get_object(MapObjectId(1)).unwrap().position, v(20.0, 10.0));
    assert_eq!(e.get_object(MapObjectId(2)).unwrap().position, v(100.0, 0.0));
    // Releasing ends the drag.
    input.handle_mouse_input(false, MOUSE_LEFT);
    assert!(frame(&mut e, &input, v(24.0, 18.0), Some(MapObjectId(1)), &[], false, 9));
    assert_eq!(e.state.dragging, None);
    assert_eq!(e.tool.drag_offset, None);
    // Nothing pressed: not consumed.
    input.begin_frame();
    assert!(!frame(&mut e, &input, v(24.0, 18.0), None, &[], false, 9));
}

#[test]
fn shift_click_adds_and_click_toggles() {
    let mut e = enabled_with_two_walls();
    e.select(MapObjectId(2));
    let mut input = keys(&[KEY_SHIFT_LEFT], &[]);
    input.handle_mouse_input(true, MOUSE_LEFT);
    assert!(frame(&mut e, &input, v(0.0, 0.0), Some(MapObjectId(1)), &[], false, 9));
    assert_eq!(e.state.selected, vec![MapObjectId(2), MapObjectId(1)]);
    let mut input = InputState::new();
    input.handle_mouse_input(true, MOUSE_LEFT);
    assert!(frame(&mut e, &input, v(0.0, 0.0), Some(MapObjectId(1)), &[], false, 9));
    assert_eq!(e.state.selected, vec![MapObjectId(2)]);
}

#[test]
fn select_tool_rectangle() {
    let mut e = enabled_with_two_walls();
    e.select(MapObjectId(1));
    let mut input = InputState::new();
    input.handle_mouse_input(true, MOUSE_LEFT);
    assert!(frame(&mut e, &input, v(-50.0, -50.0), None, &[], false, 9));
    assert!(e.state.selected.is_empty());
    assert!(e.tool.active);
    assert_eq!(e.tool.start_pos, Some(v(-50.0, -50.0)));
    input.begin_frame();
    assert!(frame(&mut e, &input, v(150.0, 50.0), None, &[], false, 9));
    assert_eq!(e.tool.current_pos, Some(v(150.0, 50.0)));
    input.handle_mouse_input(false, MOUSE_LEFT);
    let found = [MapObjectId(2), MapObjectId(1)];
    assert!(frame(&mut e, &input, v(150.0, 50.0), None, &found, false, 9));
    assert_eq!(e.state.selected, vec![MapObjectId(2), MapObjectId(1)]);
    assert!(!e.tool.active);
    assert_eq!(e.tool.start_pos, None);
}

#[test]
fn place_erase_and_paint_tools() {
    let mut e = enabled_with_two_walls();
    let mut input = InputState::new();
    input.handle_mouse_input(true, MOUSE_LEFT);
    // Place with nothing selected in the palette: consumed, nothing placed.
    e.tool.tool = EditorTool::Place;
    e.palette.deselect();
    assert!(frame(&mut e, &input, v(33.0, 47.0), None, &[], false, 9));
    assert_eq!(e.objects().len(), 2);
    e.palette.select("Wall");
    assert!(frame(&mut e, &input, v(33.0, 47.0), None, &[], false, 9));
    assert_eq!(e.get_object(MapObjectId(9)).unwrap().position, v(30.0, 50.0));
    // Erase deletes the hovered object while the button is held.
    e.tool.tool = EditorTool::Erase;
    input.begin_frame();
    assert!(frame(&mut e, &input, v(0.0, 0.0), Some(MapObjectId(1)), &[], false, 10));
    assert!(e.get_object(MapObjectId(1)).is_none());
    // Paint places while due, records the spot, and ends on release.
    e.tool.tool = EditorTool::Paint;
    input.handle_mouse_input(false, MOUSE_LEFT);
    input.begin_frame();
    input.handle_mouse_input(true, MOUSE_LEFT);
    assert!(frame(&mut e, &input, v(61.0, 0.0), None, &[], true, 11));
    assert_eq!(e.get_object(MapObjectId(11)).unwrap().position, v(60.0, 0.0));
    assert!(e.tool.active);
    assert_eq!(e.tool.last_paint_pos, Some(v(61.0, 0.0)));
    input.begin_frame();
    assert!(!frame(&mut e, &input, v(62.0, 0.0), None, &[], false, 12));
    assert!(e.get_object(MapObjectId(12)).is_none());
    input.handle_mouse_input(false, MOUSE_LEFT);
    assert!(!frame(&mut e, &input, v(62.0, 0.0), None, &[], false, 12));
    assert!(!e.tool.active);
    assert_eq!(e.tool.last_paint_pos, None);
    // Pan consumes nothing.
    e.tool.tool = EditorTool::Pan;
    input.handle_mouse_input(true, MOUSE_LEFT);
    assert!(!frame(&mut e, &input, v(0.0, 0.0), None, &[], false, 12));
}

#[test]
fn place_and_move_snap_positions() {
    let mut e = editor_with_wall();
    e.place_object("Wall", v(33.0, 47.0), snap10, MapObjectId(1)).unwrap();
    assert_eq!(e.get_object(MapObjectId(1)).unwrap().position, v(30.0, 50.0));
    e.move_object(MapObjectId(1), v(64.0, -26.0), snap10);
    assert_eq!(e.get_object(MapObjectId(1)).unwrap().position, v(60.0, -30.0));
}

#[test]
fn register_with_preview_keeps_selection() {
    let mut p = AssetPalette::new();
    p.register_with_preview(MapObject::texture("Tree", "tree", v(8.0, 8.0)), TextureId::User(7));
    assert_eq!(p.selected(), None);
    assert_eq!(p.get("Tree").unwrap().preview_texture_id, Some(TextureId::User(7)));
    p.register(MapObject::texture("Rock", "rock", v(8.0, 8.0)));
    assert_eq!(p.selected(), None);
    assert_eq!(p.get("Rock").unwrap().preview_texture_id, None);
    p.convert_asset_to("Tree", AssetKind::SpriteSheet);
    assert_eq!(p.get("Tree").unwrap().preview_texture_id, Some(TextureId::User(7)));
    let e = AssetEntry::new(MapObject::texture("Bush", "bush", v(8.0, 8.0))).with_preview(TextureId::Managed(3));
    assert_eq!(e.preview_texture_id, Some(TextureId::Managed(3)));
}
