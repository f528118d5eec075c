//! The map editor as an engine plugin: its settings, and the decisions of
//! the asset-directory scan (which files are images, how they are named and
//! categorized). Walking the directory is left to the caller.
use crate::asset_palette::{lowercase, registered, to_lowercase};
use crate::bits::Vec2Bits;
use crate::input::{InputState, KEY_BACKQUOTE, KEY_F1};
use crate::map_editor::{EditorConfig, EditorFrame, MapEditor, default_config, fresh_editor, has_id, input_handled};
use crate::map_object::MapObjectId;
use crate::map_object::{MapObject, ObjectVisual, fresh_object};
use vstd::prelude::*;

verus! {

/// The bits of the `f32` value `1280.0`.
pub const SCREEN_WIDTH_BITS: u32 = 0x44a0_0000;

/// The bits of the `f32` value `720.0`.
pub const SCREEN_HEIGHT_BITS: u32 = 0x4434_0000;

/// The bits of the `f32` value `64.0`, the side of a scanned texture asset.
pub const SCANNED_SIZE_BITS: u32 = 0x4280_0000;

/// The file extensions (in lowercase) of the images the scan registers.
pub open spec fn image_extensions() -> Set<Seq<char>> {
    set!["png"@, "jpg"@, "jpeg"@, "gif"@, "bmp"@, "webp"@]
}

/// Whether a file extension names an image, in any letter case.
pub fn is_image_extension(extension: &str) -> (b: bool)
    ensures
        b == image_extensions().contains(lowercase(extension@)),
{
    let lower = to_lowercase(extension);
    is_image_name(lower.as_str())
}

/// Whether a lowercase file extension is one of the image extensions.
pub fn is_image_name(lower_extension: &str) -> (b: bool)
    ensures
        b == image_extensions().contains(lower_extension@),
{
    let lower = lower_extension.to_owned();
    proof {
        reveal_strlit("png");
        reveal_strlit("jpg");
        reveal_strlit("jpeg");
        reveal_strlit("gif");
        reveal_strlit("bmp");
        reveal_strlit("webp");
    }
    lower == "png".to_owned() || lower == "jpg".to_owned() || lower == "jpeg".to_owned() || lower
        == "gif".to_owned() || lower == "bmp".to_owned() || lower == "webp".to_owned()
}

/// A file name with underscores and hyphens shown as spaces.
pub open spec fn spaced(s: Seq<char>) -> Seq<char> {
    s.map_values(|c: char| if c == '_' || c == '-' { ' ' } else { c })
}

/// The display name of a scanned asset: its file stem with underscores and
/// hyphens replaced by spaces.
pub fn asset_display_name(file_stem: &str) -> (r: String)
    ensures
        r@ == spaced(file_stem@),
{
    let n = file_stem.unicode_len();
    let mut r = String::new();
    let mut i: usize = 0;
    while i < n
        invariant
            n == file_stem@.len(),
            i <= n,
            r@ == spaced(file_stem@.subrange(0, i as int)),
        decreases n - i,
    {
        let c = file_stem.get_char(i);
        let ghost before = r@;
        proof {
            reveal_strlit(" ");
        }
        if c == '_' || c == '-' {
            r.append(" ");
            assert(" "@ =~= seq![' ']);
        } else {
            let one = file_stem.substring_char(i, i + 1);
            assert(one@ =~= seq![c]);
            r.append(one);
        }
        proof {
            assert(file_stem@.subrange(0, i + 1) =~= file_stem@.subrange(0, i as int).push(c));
            assert(r@ =~= before.push(if c == '_' || c == '-' { ' ' } else { c }));
            assert(spaced(file_stem@.subrange(0, i + 1)) =~= spaced(file_stem@.subrange(0, i as int)).push(
                if c == '_' || c == '-' { ' ' } else { c },
            ));
        }
        i = i + 1;
    }
    proof {
        assert(file_stem@.subrange(0, n as int) =~= file_stem@);
    }
    r
}

/// The category of a subdirectory: its name under the top category
/// "Sprites", else `category/dir_name`.
pub open spec fn sub_category_of(category: Seq<char>, dir_name: Seq<char>) -> Seq<char> {
    if category == "Sprites"@ {
        dir_name
    } else {
        category + "/"@ + dir_name
    }
}

/// The category of a subdirectory of a directory of category `category`.
pub fn sub_category(category: &str, dir_name: &str) -> (r: String)
    ensures
        r@ == sub_category_of(category@, dir_name@),
{
    if category.to_owned() == "Sprites".to_owned() {
        dir_name.to_owned()
    } else {
        category.to_owned().concat("/").concat(dir_name)
    }
}

/// The map editor as a plugin: the editor, the asset directory to scan, and
/// whether the scan has run.
pub struct MapEditorPlugin {
    /// The map editor.
    pub editor: MapEditor,
    asset_dir: Option<String>,
    assets_scanned: bool,
    last_screen_size: [u32; 2],
}

impl MapEditorPlugin {
    /// The editor.
    pub closed spec fn editor_of(&self) -> MapEditor {
        self.editor
    }

    /// The asset directory to scan.
    pub closed spec fn asset_dir(&self) -> Option<Seq<char>> {
        match self.asset_dir {
            Some(d) => Some(d@),
            None => None,
        }
    }

    /// Whether the asset scan has run.
    pub closed spec fn scanned(&self) -> bool {
        self.assets_scanned
    }

    /// The last known screen size, as `f32` bits.
    pub closed spec fn screen_size_bits(&self) -> [u32; 2] {
        self.last_screen_size
    }

    /// A plugin around a new editor with configuration `config`; no asset
    /// directory, not scanned, a 1280 by 720 screen.
    pub fn with_config(config: EditorConfig) -> (p: MapEditorPlugin)
        ensures
            fresh_editor(p.editor_of(), config),
            p.asset_dir() is None,
            !p.scanned(),
            p.screen_size_bits() == [SCREEN_WIDTH_BITS, SCREEN_HEIGHT_BITS],
    {
        MapEditorPlugin {
            editor: MapEditor::with_config(config),
            asset_dir: None,
            assets_scanned: false,
            last_screen_size: [SCREEN_WIDTH_BITS, SCREEN_HEIGHT_BITS],
        }
    }

    /// A plugin around a new editor with the default configuration.
    pub fn new() -> (p: MapEditorPlugin)
        ensures
            fresh_editor(p.editor_of(), default_config()),
            p.asset_dir() is None,
            !p.scanned(),
            p.screen_size_bits() == [SCREEN_WIDTH_BITS, SCREEN_HEIGHT_BITS],
    {
        MapEditorPlugin::with_config(EditorConfig::default())
    }

    /// Sets the asset directory to scan.
    pub fn with_asset_dir(self, dir: &str) -> (p: MapEditorPlugin)
        ensures
            p.asset_dir() == Some(dir@),
            p.editor_of() == self.editor_of(),
            p.scanned() == self.scanned(),
            p.screen_size_bits() == self.screen_size_bits(),
    {
        MapEditorPlugin { asset_dir: Some(dir.to_owned()), ..self }
    }

    /// Handles one frame of input and returns whether it was consumed. The
    /// screen size is recorded first; then F1 or backtick, newly pressed,
    /// toggles the editor and consumes the input; any other input goes to the
    /// editor (see [`MapEditor::handle_input`], whose arguments follow).
    pub fn handle_input<F, A, S>(
        &mut self,
        input: &InputState,
        screen_size_bits: [u32; 2],
        mouse_world: Vec2Bits,
        hovered: Option<MapObjectId>,
        in_rect: &[MapObjectId],
        paint_due: bool,
        snap: F,
        plus: A,
        minus: S,
        new_id: MapObjectId,
    ) -> (consumed: bool)
        where
            F: Fn(Vec2Bits) -> Vec2Bits,
            A: Fn(Vec2Bits, Vec2Bits) -> Vec2Bits,
            S: Fn(Vec2Bits, Vec2Bits) -> Vec2Bits,
        requires
            old(self).editor_of().wf(),
            !has_id(old(self).editor_of().model().objects, new_id),
            forall|p: Vec2Bits| snap.requires((p,)),
            forall|a: Vec2Bits, b: Vec2Bits| plus.requires((a, b)),
            forall|a: Vec2Bits, b: Vec2Bits| minus.requires((a, b)),
        ensures
            final(self).editor_of().wf(),
            final(self).screen_size_bits() == screen_size_bits,
            final(self).asset_dir() == old(self).asset_dir(),
            final(self).scanned() == old(self).scanned(),
            input.keys_just_pressed().contains(KEY_F1) || input.keys_just_pressed().contains(KEY_BACKQUOTE)
                ==> {
                &&& consumed
                &&& final(self).editor_of().model() == old(self).editor_of().model()
                &&& final(self).editor_of().palette_of() == old(self).editor_of().palette_of()
                &&& final(self).editor_of().frame() == (EditorFrame {
                    config: EditorConfig {
                        enabled: !old(self).editor_of().frame().config.enabled,
                        ..old(self).editor_of().frame().config
                    },
                    ..old(self).editor_of().frame()
                })
            },
            !(input.keys_just_pressed().contains(KEY_F1) || input.keys_just_pressed().contains(KEY_BACKQUOTE))
                ==> input_handled(
                old(self).editor_of(),
                final(self).editor_of(),
                input,
                mouse_world,
                hovered,
                in_rect@,
                paint_due,
                snap,
                plus,
                minus,
                new_id,
                consumed,
            ),
    {
        self.last_screen_size = screen_size_bits;
        if input.is_key_just_pressed(KEY_F1) || input.is_key_just_pressed(KEY_BACKQUOTE) {
            self.editor.toggle();
            return true;
        }
        self.editor.handle_input(input, mouse_world, hovered, in_rect, paint_due, snap, plus, minus, new_id)
    }

    /// Starts with the editor enabled.
    pub fn enabled(self) -> (p: MapEditorPlugin)
        requires
            self.editor_of().wf(),
        ensures
            p.editor_of().wf(),
            p.editor_of().model() == self.editor_of().model(),
            p.editor_of().palette_of() == self.editor_of().palette_of(),
            p.editor_of().frame() == (EditorFrame {
                config: EditorConfig { enabled: true, ..self.editor_of().frame().config },
                ..self.editor_of().frame()
            }),
            p.asset_dir() == self.asset_dir(),
            p.scanned() == self.scanned(),
    {
        let mut p = self;
        p.editor.enable();
        p
    }

    /// Starts with the editor disabled.
    pub fn disabled(self) -> (p: MapEditorPlugin)
        requires
            self.editor_of().wf(),
        ensures
            p.editor_of().wf(),
            p.editor_of().model() == self.editor_of().model(),
            p.editor_of().palette_of() == self.editor_of().palette_of(),
            p.editor_of().frame() == (EditorFrame {
                config: EditorConfig { enabled: false, ..self.editor_of().frame().config },
                ..self.editor_of().frame()
            }),
            p.asset_dir() == self.asset_dir(),
            p.scanned() == self.scanned(),
    {
        let mut p = self;
        p.editor.disable();
        p
    }

    /// The editor.
    pub fn editor(&self) -> (e: &MapEditor)
        ensures
            *e == self.editor_of(),
    {
        &self.editor
    }

    /// Sets the grid cell size to `size` by `size` (as `f32` bits).
    pub fn with_grid_size(self, size_bits: u32) -> (p: MapEditorPlugin)
        requires
            self.editor_of().wf(),
        ensures
            p.editor_of().wf(),
            p.editor_of().model() == self.editor_of().model(),
            p.editor_of().palette_of() == self.editor_of().palette_of(),
            p.editor_of().frame() == (EditorFrame {
                config: EditorConfig {
                    grid: crate::tools::GridConfig {
                        cell_size: Vec2Bits { x_bits: size_bits, y_bits: size_bits },
                        ..self.editor_of().frame().config.grid
                    },
                    ..self.editor_of().frame().config
                },
                ..self.editor_of().frame()
            }),
            p.asset_dir() == self.asset_dir(),
            p.scanned() == self.scanned(),
    {
        let mut p = self;
        p.editor.set_grid_cell_size(Vec2Bits::new(size_bits, size_bits));
        p
    }

    /// Turns grid snapping on or off.
    pub fn with_grid_snap(self, enabled: bool) -> (p: MapEditorPlugin)
        requires
            self.editor_of().wf(),
        ensures
            p.editor_of().wf(),
            p.editor_of().model() == self.editor_of().model(),
            p.editor_of().palette_of() == self.editor_of().palette_of(),
            p.editor_of().frame() == (EditorFrame {
                config: EditorConfig {
                    grid: crate::tools::GridConfig { enabled, ..self.editor_of().frame().config.grid },
                    ..self.editor_of().frame().config
                },
                ..self.editor_of().frame()
            }),
            p.asset_dir() == self.asset_dir(),
            p.scanned() == self.scanned(),
    {
        let mut p = self;
        p.editor.set_grid_snap(enabled);
        p
    }

    /// Registers a placeable object type.
    pub fn register(self, object: MapObject) -> (p: MapEditorPlugin)
        requires
            self.editor_of().wf(),
        ensures
            p.editor_of().wf(),
            p.editor_of().model() == self.editor_of().model(),
            p.editor_of().frame() == self.editor_of().frame(),
            registered(self.editor_of().palette_of(), p.editor_of().palette_of(), object),
            p.asset_dir() == self.asset_dir(),
            p.scanned() == self.scanned(),
    {
        let mut p = self;
        p.editor.register_object(object);
        p
    }

    /// Starts the asset scan: gives the directory to scan the first time, and
    /// `None` afterwards or when no directory is set.
    pub fn begin_scan(&mut self) -> (dir: Option<String>)
        ensures
            final(self).scanned(),
            final(self).editor_of() == old(self).editor_of(),
            final(self).asset_dir() == old(self).asset_dir(),
            old(self).scanned() ==> dir is None,
            !old(self).scanned() ==> match dir {
                Some(d) => old(self).asset_dir() == Some(d@),
                None => old(self).asset_dir() is None,
            },
    {
        if self.assets_scanned {
            return None;
        }
        self.assets_scanned = true;
        match &self.asset_dir {
            Some(d) => Some(d.clone()),
            None => None,
        }
    }

    /// Registers a scanned file of the given stem and extension, found at
    /// `texture_path` in a directory of category `category`, when it is an
    /// image: a 64 by 64 texture asset named by [`asset_display_name`].
    /// Gives whether it was registered.
    pub fn register_scanned_file(
        &mut self,
        file_stem: &str,
        extension: &str,
        texture_path: &str,
        category: &str,
    ) -> (b: bool)
        requires
            old(self).editor_of().wf(),
        ensures
            final(self).editor_of().wf(),
            b == image_extensions().contains(lowercase(extension@)),
            final(self).editor_of().model() == old(self).editor_of().model(),
            final(self).editor_of().frame() == old(self).editor_of().frame(),
            final(self).asset_dir() == old(self).asset_dir(),
            final(self).scanned() == old(self).scanned(),
            !b ==> final(self).editor_of().palette_of() == old(self).editor_of().palette_of(),
            b ==> exists|o: MapObject|
                fresh_object(
                    o,
                    spaced(file_stem@),
                    category@,
                    Vec2Bits { x_bits: SCANNED_SIZE_BITS, y_bits: SCANNED_SIZE_BITS },
                    true,
                ) && (o.visual matches ObjectVisual::Texture { texture_name: t, tint } && t@ == texture_path@
                    && tint == crate::bits::white()) && o.collision is None
                    && registered(old(self).editor_of().palette_of(), final(self).editor_of().palette_of(), o),
    {
        if !is_image_extension(extension) {
            return false;
        }
        let display_name = asset_display_name(file_stem);
        let size = Vec2Bits::new(SCANNED_SIZE_BITS, SCANNED_SIZE_BITS);
        let object = MapObject::texture(display_name.as_str(), texture_path, size).with_category(category);
        let ghost og = object;
        self.editor.register_object(object);
        proof {
            assert(fresh_object(og, spaced(file_stem@), category@, size, true));
        }
        true
    }
}

impl Default for MapEditorPlugin {
    fn default() -> (p: MapEditorPlugin)
        ensures
            fresh_editor(p.editor_of(), default_config()),
            p.asset_dir() is None,
            !p.scanned(),
            p.screen_size_bits() == [SCREEN_WIDTH_BITS, SCREEN_HEIGHT_BITS],
    {
        MapEditorPlugin::new()
    }
}

} // verus!
