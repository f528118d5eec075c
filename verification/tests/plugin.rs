use graviplex::plugin::{asset_display_name, is_image_extension, is_image_name, sub_category};
use graviplex::input::{KEY_BACKQUOTE, KEY_F1, KEY_G};
use graviplex::{InputState, MapEditorPlugin, MapObject, MapObjectId, Vec2Bits};

#[test]
fn image_extensions_any_case() {
    for ext in ["png", "PNG", "jpg", "Jpeg", "gif", "bmp", "WebP"] {
        assert!(is_image_extension(ext), "{ext}");
    }
    for ext in ["txt", "pngx", "", "ogg"] {
        assert!(!is_image_extension(ext), "{ext}");
    }
}

#[test]
fn display_names_and_categories() {
    assert_eq!(asset_display_name("big_red-tree"), "big red tree");
    assert_eq!(asset_display_name("plain"), "plain");
    assert_eq!(asset_display_name(""), "");
    assert_eq!(sub_category("Sprites", "trees"), "trees");
    assert_eq!(sub_category("trees", "oak"), "trees/oak");
}

#[test]
fn plugin_builders() {
    let p = MapEditorPlugin::new().with_asset_dir("assets").enabled().with_grid_size(16.0f32.to_bits()).with_grid_snap(false);
    assert!(p.editor().is_enabled());
    assert_eq!(p.editor.config.grid.cell_size, Vec2Bits::new(16.0f32.to_bits(), 16.0f32.to_bits()));
    assert!(!p.editor.config.grid.enabled);
    let p = p.disabled().register(MapObject::texture("Tree", "tree", Vec2Bits::zero()));
    assert!(!p.editor().is_enabled());
    assert_eq!(p.editor().palette.len(), 1);
}

#[test]
fn scan_runs_once() {
    let mut p = MapEditorPlugin::new().with_asset_dir("assets/sprites");
    assert_eq!(p.begin_scan().as_deref(), Some("assets/sprites"));
    assert_eq!(p.begin_scan(), None);
    let mut q = MapEditorPlugin::default();
    assert_eq!(q.begin_scan(), None);
}

#[test]
fn scanned_files_register_images() {
    let mut p = MapEditorPlugin::new();
    assert!(p.register_scanned_file("oak_tree", "PNG", "assets/trees/oak_tree.png", "trees"));
    assert!(!p.register_scanned_file("notes", "txt", "assets/notes.txt", "trees"));
    let palette = &p.editor().palette;
    assert_eq!(palette.len(), 1);
    let obj = palette.get_object("oak tree").unwrap();
    assert_eq!(obj.category, "trees");
    assert_eq!(obj.size, Vec2Bits::new(64.0f32.to_bits(), 64.0f32.to_bits()));
}

#[test]
fn image_names_are_lowercase_only() {
    assert!(is_image_name("png"));
    assert!(is_image_name("webp"));
    assert!(!is_image_name("PNG"));
    assert!(!is_image_name("tiff"));
}

fn plus(a: Vec2Bits, b: Vec2Bits) -> Vec2Bits {
    Vec2Bits::new(
        (f32::from_bits(a.x_bits) + f32::from_bits(b.x_bits)).to_bits(),
        (f32::from_bits(a.y_bits) + f32::from_bits(b.y_bits)).to_bits(),
    )
}

fn minus(a: Vec2Bits, b: Vec2Bits) -> Vec2Bits {
    Vec2Bits::new(
        (f32::from_bits(a.x_bits) - f32::from_bits(b.x_bits)).to_bits(),
        (f32::from_bits(a.y_bits) - f32::from_bits(b.y_bits)).to_bits(),
    )
}

fn pressed(key: u32) -> InputState {
    let mut input = InputState::new();
    input.handle_keyboard_event(key, true);
    input
}

#[test]
fn f1_or_backtick_toggles_the_editor() {
    let mut p = MapEditorPlugin::new();
    let screen = [800.0f32.to_bits(), 600.0f32.to_bits()];
    let run = |p: &mut MapEditorPlugin, input: &InputState| {
        p.handle_input(input, screen, Vec2Bits::zero(), None, &[], false, |q: Vec2Bits| q, plus, minus, MapObjectId(1))
    };
    assert!(run(&mut p, &pressed(KEY_F1)));
    assert!(p.editor().is_enabled());
    assert!(run(&mut p, &pressed(KEY_BACKQUOTE)));
    assert!(!p.editor().is_enabled());
    // Other input goes to the editor: a disabled editor consumes nothing.
    assert!(!run(&mut p, &pressed(KEY_G)));
    assert!(p.editor.config.grid.enabled);
    assert!(run(&mut p, &pressed(KEY_F1)));
    assert!(run(&mut p, &pressed(KEY_G)));
    assert!(!p.editor.config.grid.enabled);
}
