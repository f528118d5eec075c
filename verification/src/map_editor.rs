//! The map editor: placed objects with an index by identifier, selection,
//! undo/redo history, and what a frame of keyboard and mouse input does to it.
//!
//! Positions are `f32` values held as bits; grid snapping, vector arithmetic
//! and hit testing are floating point: the caller hands them in as closures
//! (snapping, sums, differences) or as results (hovered objects).
use crate::asset_palette::{AssetPalette, registered};
use crate::bits::{ColorBits, Vec2Bits, ZERO_BITS};
use crate::input::{
    InputState, KEY_A, KEY_B, KEY_BACKSPACE, KEY_CONTROL_LEFT, KEY_CONTROL_RIGHT, KEY_DELETE, KEY_E, KEY_G,
    KEY_H, KEY_P, KEY_SHIFT_LEFT, KEY_SUPER_LEFT, KEY_SUPER_RIGHT, KEY_V, KEY_Z, MOUSE_LEFT,
};
use crate::map_object::{MapObject, MapObjectId, PlacedObject, PlacedObjectView};
use crate::serialization::{MapData, fresh_map, loads_as, serializes};
use crate::tools::{EditorTool, GridConfig, ToolState, default_grid};
use std::collections::HashMap;
use vstd::prelude::*;

verus! {

broadcast use vstd::std_specs::hash::group_hash_axioms;

/// The bits of the `f32` value `250.0`, the default panel width.
pub const PANEL_WIDTH_BITS: u32 = 0x437a_0000;

/// Editor configuration; widths and colors are `f32` bits.
#[derive(Debug, Clone, Copy, PartialEq, Eq, Structural)]
pub struct EditorConfig {
    /// Whether the editor is enabled.
    pub enabled: bool,
    /// Whether the editor panel is shown.
    pub show_panel: bool,
    /// Panel width in pixels.
    pub panel_width_bits: u32,
    /// Whether object outlines are shown.
    pub show_outlines: bool,
    /// Selection highlight color.
    pub selection_color: ColorBits,
    /// Hover highlight color.
    pub hover_color: ColorBits,
    /// Grid settings.
    pub grid: GridConfig,
    /// How many undo steps are kept.
    pub max_undo_steps: usize,
}

/// The default configuration: disabled, panel shown 250 wide, outlines shown,
/// selection color `(0.2, 0.6, 1.0, 0.8)`, hover color `(1.0, 1.0, 0.2, 0.5)`,
/// the default grid, 50 undo steps.
pub open spec fn default_config() -> EditorConfig {
    EditorConfig {
        enabled: false,
        show_panel: true,
        panel_width_bits: PANEL_WIDTH_BITS,
        show_outlines: true,
        selection_color: ColorBits { r_bits: 0x3e4c_cccd, g_bits: 0x3f19_999a, b_bits: 0x3f80_0000, a_bits: 0x3f4c_cccd },
        hover_color: ColorBits { r_bits: 0x3f80_0000, g_bits: 0x3f80_0000, b_bits: 0x3e4c_cccd, a_bits: 0x3f00_0000 },
        grid: default_grid(),
        max_undo_steps: 50,
    }
}

impl Default for EditorConfig {
    fn default() -> (c: EditorConfig)
        ensures
            c == default_config(),
    {
        EditorConfig {
            enabled: false,
            show_panel: true,
            panel_width_bits: PANEL_WIDTH_BITS,
            show_outlines: true,
            selection_color: ColorBits::rgba(0x3e4c_cccd, 0x3f19_999a, 0x3f80_0000, 0x3f4c_cccd),
            hover_color: ColorBits::rgba(0x3f80_0000, 0x3f80_0000, 0x3e4c_cccd, 0x3f00_0000),
            grid: GridConfig::default(),
            max_undo_steps: 50,
        }
    }
}

/// Current editor state.
#[derive(Debug, Clone)]
pub struct EditorState {
    /// The hovered object.
    pub hovered: Option<MapObjectId>,
    /// The selected objects, in selection order.
    pub selected: Vec<MapObjectId>,
    /// The object being dragged.
    pub dragging: Option<MapObjectId>,
    /// Mouse position in world coordinates.
    pub mouse_world_pos: Vec2Bits,
    /// Status message to display.
    pub status_message: Option<String>,
    /// Whether the editor panel has focus (game input is blocked).
    pub panel_focused: bool,
}

impl Default for EditorState {
    /// Nothing hovered, selected or dragged, the mouse at the origin, no message.
    fn default() -> (s: EditorState)
        ensures
            s.hovered is None,
            s.selected@ == Seq::<MapObjectId>::empty(),
            s.dragging is None,
            s.mouse_world_pos == (Vec2Bits { x_bits: 0, y_bits: 0 }),
            s.status_message is None,
            !s.panel_focused,
    {
        EditorState {
            hovered: None,
            selected: Vec::new(),
            dragging: None,
            mouse_world_pos: Vec2Bits::zero(),
            status_message: None,
            panel_focused: false,
        }
    }
}

/// The part of the editor that its editing operations change.
pub struct EditorModel {
    /// The placed objects, in placement order (deletion moves the last into the gap).
    pub objects: Seq<PlacedObjectView>,
    /// The selected identifiers, in selection order.
    pub selected: Seq<MapObjectId>,
    /// Saved object lists to undo to, oldest first.
    pub undo: Seq<Seq<PlacedObjectView>>,
    /// Saved object lists to redo to, oldest first.
    pub redo: Seq<Seq<PlacedObjectView>>,
    /// Whether there are unsaved changes.
    pub dirty: bool,
}

/// Whether an object with identifier `id` is in the list.
pub open spec fn has_id(s: Seq<PlacedObjectView>, id: MapObjectId) -> bool {
    exists|i: int| 0 <= i < s.len() && #[trigger] s[i].id == id
}

/// The position of the object with identifier `id` in the list.
pub open spec fn id_position(s: Seq<PlacedObjectView>, id: MapObjectId) -> int {
    choose|i: int| 0 <= i < s.len() && #[trigger] s[i].id == id
}

/// No two objects of the list share an identifier.
pub open spec fn distinct_ids(s: Seq<PlacedObjectView>) -> bool {
    forall|i: int, j: int|
        #![trigger s[i].id, s[j].id]
        0 <= i < s.len() && 0 <= j < s.len() && i != j ==> s[i].id != s[j].id
}

/// The list with its element at `i` taken out and the last element moved into its place.
pub open spec fn swap_removed<A>(s: Seq<A>, i: int) -> Seq<A> {
    s.update(i, s.last()).drop_last()
}

/// Whether an identifier differs from `id`.
pub open spec fn other_than(id: MapObjectId) -> spec_fn(MapObjectId) -> bool {
    |x: MapObjectId| x != id
}

/// The identifiers other than `id`, in order.
pub open spec fn without(sel: Seq<MapObjectId>, id: MapObjectId) -> Seq<MapObjectId> {
    sel.filter(other_than(id))
}

/// The identifiers other than `id` of a list, in order.
fn ids_without(v: &Vec<MapObjectId>, id: MapObjectId) -> (r: Vec<MapObjectId>)
    ensures
        r@ == without(v@, id),
{
    let mut r: Vec<MapObjectId> = Vec::new();
    let mut i: usize = 0;
    while i < v.len()
        invariant
            i <= v@.len(),
            r@ == v@.subrange(0, i as int).filter(other_than(id)),
        decreases v@.len() - i,
    {
        proof {
            reveal(Seq::filter);
            assert(v@.subrange(0, i + 1).drop_last() =~= v@.subrange(0, i as int));
        }
        if v[i] != id {
            r.push(v[i]);
        }
        i = i + 1;
    }
    assert(v@.subrange(0, i as int) =~= v@);
    r
}

/// The model after the current objects are saved for undo: the history keeps
/// at most `max` entries (dropping the oldest), and redo is forgotten.
pub open spec fn snapshot_taken(m: EditorModel, max: usize) -> EditorModel {
    let u = m.undo.push(m.objects);
    EditorModel {
        undo: if u.len() > max {
            u.subrange(1, u.len() as int)
        } else {
            u
        },
        redo: Seq::empty(),
        ..m
    }
}

/// The model after placing `obj`.
pub open spec fn after_place(m: EditorModel, obj: PlacedObjectView, max: usize) -> EditorModel {
    EditorModel { objects: m.objects.push(obj), dirty: true, ..snapshot_taken(m, max) }
}

/// The model after deleting the object with identifier `id`, if there is one.
pub open spec fn after_delete(m: EditorModel, id: MapObjectId, max: usize) -> EditorModel {
    if has_id(m.objects, id) {
        EditorModel {
            objects: swap_removed(m.objects, id_position(m.objects, id)),
            selected: without(m.selected, id),
            dirty: true,
            ..snapshot_taken(m, max)
        }
    } else {
        m
    }
}

/// The model after deleting the objects with the given identifiers, in order.
pub open spec fn after_delete_all(m: EditorModel, ids: Seq<MapObjectId>, max: usize) -> EditorModel
    decreases ids.len(),
{
    if ids.len() == 0 {
        m
    } else {
        after_delete(after_delete_all(m, ids.drop_last(), max), ids.last(), max)
    }
}

/// The part of the editor that editing operations leave alone (besides the palette).
pub struct EditorFrame {
    /// The configuration.
    pub config: EditorConfig,
    /// The tool state.
    pub tool: ToolState,
    /// The hovered object.
    pub hovered: Option<MapObjectId>,
    /// The dragged object.
    pub dragging: Option<MapObjectId>,
    /// The mouse position in world coordinates.
    pub mouse_world_pos: Vec2Bits,
    /// The status message.
    pub status_message: Option<Seq<char>>,
    /// Whether the panel has focus.
    pub panel_focused: bool,
    /// The map name.
    pub name: Seq<char>,
}

/// The frame of a new editor with configuration `config`.
pub open spec fn initial_frame(config: EditorConfig) -> EditorFrame {
    EditorFrame {
        config,
        tool: ToolState::new_spec(),
        hovered: None,
        dragging: None,
        mouse_world_pos: Vec2Bits { x_bits: 0, y_bits: 0 },
        status_message: None,
        panel_focused: false,
        name: "Untitled"@,
    }
}

/// The model of a new editor: no objects, no selection, no history, saved.
pub open spec fn initial_model() -> EditorModel {
    EditorModel {
        objects: Seq::empty(),
        selected: Seq::empty(),
        undo: Seq::empty(),
        redo: Seq::empty(),
        dirty: false,
    }
}


/// The list with the selected flag of the object with identifier `id` set to
/// `flag`, if there is such an object.
pub open spec fn flagged(s: Seq<PlacedObjectView>, id: MapObjectId, flag: bool) -> Seq<PlacedObjectView> {
    if has_id(s, id) {
        let p = id_position(s, id);
        s.update(p, PlacedObjectView { selected: flag, ..s[p] })
    } else {
        s
    }
}

/// The model after selecting `id`: it joins the selection (last) unless it
/// is already in it, and its object is flagged as selected.
pub open spec fn after_select(m: EditorModel, id: MapObjectId) -> EditorModel {
    if m.selected.contains(id) {
        m
    } else {
        EditorModel { selected: m.selected.push(id), objects: flagged(m.objects, id, true), ..m }
    }
}

/// The model after deselecting `id`: it leaves the selection and its object
/// is flagged as not selected.
pub open spec fn after_deselect(m: EditorModel, id: MapObjectId) -> EditorModel {
    EditorModel { selected: without(m.selected, id), objects: flagged(m.objects, id, false), ..m }
}

/// The model after toggling the selection of `id`.
pub open spec fn after_toggle(m: EditorModel, id: MapObjectId) -> EditorModel {
    if m.selected.contains(id) {
        after_deselect(m, id)
    } else {
        after_select(m, id)
    }
}

/// The list with every object whose identifier is in `sel` flagged as not selected.
pub open spec fn unflagged(s: Seq<PlacedObjectView>, sel: Seq<MapObjectId>) -> Seq<PlacedObjectView> {
    Seq::new(
        s.len(),
        |i: int|
            if sel.contains(s[i].id) {
                PlacedObjectView { selected: false, ..s[i] }
            } else {
                s[i]
            },
    )
}

/// The model after clearing the selection.
pub open spec fn after_clear_selection(m: EditorModel) -> EditorModel {
    EditorModel { selected: Seq::empty(), objects: unflagged(m.objects, m.selected), ..m }
}

/// The identifiers of the unlocked objects of a list, in order.
pub open spec fn unlocked_ids(s: Seq<PlacedObjectView>) -> Seq<MapObjectId>
    decreases s.len(),
{
    if s.len() == 0 {
        Seq::empty()
    } else if s.last().locked {
        unlocked_ids(s.drop_last())
    } else {
        unlocked_ids(s.drop_last()).push(s.last().id)
    }
}

/// The model after selecting all unlocked objects.
pub open spec fn after_select_all(m: EditorModel) -> EditorModel {
    EditorModel {
        selected: unlocked_ids(m.objects),
        objects: Seq::new(
            m.objects.len(),
            |i: int|
                if m.objects[i].locked {
                    m.objects[i]
                } else {
                    PlacedObjectView { selected: true, ..m.objects[i] }
                },
        ),
        ..m
    }
}

/// Whether the list holds `id`.
fn holds_id(v: &Vec<MapObjectId>, id: MapObjectId) -> (b: bool)
    ensures
        b == v@.contains(id),
{
    let mut i: usize = 0;
    while i < v.len()
        invariant
            i <= v@.len(),
            forall|j: int| 0 <= j < i ==> v@[j] != id,
        decreases v@.len() - i,
    {
        if v[i] == id {
            assert(v@[i as int] == id);
            return true;
        }
        i = i + 1;
    }
    false
}


/// Whether an identifier belongs to an object of the list.
pub open spec fn present_in(s: Seq<PlacedObjectView>) -> spec_fn(MapObjectId) -> bool {
    |x: MapObjectId| has_id(s, x)
}

/// The model after clearing all objects (after saving them for undo).
pub open spec fn after_clear(m: EditorModel, max: usize) -> EditorModel {
    EditorModel { objects: Seq::empty(), selected: Seq::empty(), dirty: true, ..snapshot_taken(m, max) }
}

/// The model after undo: the last saved list becomes the objects, the
/// current objects are saved for redo, and the selection keeps the
/// identifiers that are still present. With nothing to undo, nothing changes.
pub open spec fn after_undo(m: EditorModel) -> EditorModel {
    if m.undo.len() == 0 {
        m
    } else {
        EditorModel {
            objects: m.undo.last(),
            selected: m.selected.filter(present_in(m.undo.last())),
            undo: m.undo.drop_last(),
            redo: m.redo.push(m.objects),
            dirty: true,
        }
    }
}

/// The model after redo: the last list saved for redo becomes the objects,
/// the current objects are saved for undo (the undo limit is not applied
/// here), and the selection keeps the identifiers that are still present.
/// With nothing to redo, nothing changes.
pub open spec fn after_redo(m: EditorModel) -> EditorModel {
    if m.redo.len() == 0 {
        m
    } else {
        EditorModel {
            objects: m.redo.last(),
            selected: m.selected.filter(present_in(m.redo.last())),
            undo: m.undo.push(m.objects),
            redo: m.redo.drop_last(),
            dirty: true,
        }
    }
}

/// The model after moving the object `id` to `position`, if it exists and is
/// not locked.
pub open spec fn after_move(m: EditorModel, id: MapObjectId, position: Vec2Bits) -> EditorModel {
    if has_id(m.objects, id) && !m.objects[id_position(m.objects, id)].locked {
        let p = id_position(m.objects, id);
        EditorModel {
            objects: m.objects.update(p, PlacedObjectView { position, ..m.objects[p] }),
            dirty: true,
            ..m
        }
    } else {
        m
    }
}


/// How many times `id` occurs in the list.
pub open spec fn occurrences(sel: Seq<MapObjectId>, id: MapObjectId) -> nat
    decreases sel.len(),
{
    if sel.len() == 0 {
        0
    } else {
        occurrences(sel.drop_last(), id) + if sel.last() == id {
            1nat
        } else {
            0nat
        }
    }
}

/// The step relation of a position function: `b` is a result that `f` may
/// give for `a`.
pub open spec fn call_step<F: Fn(Vec2Bits) -> Vec2Bits>(f: F) -> spec_fn(Vec2Bits, Vec2Bits) -> bool {
    |a: Vec2Bits, b: Vec2Bits| f.ensures((a,), b)
}

/// Whether `to` is reached from `from` by `n` successive moves, each related
/// to the position before it by `step`.
pub open spec fn moved_times(step: spec_fn(Vec2Bits, Vec2Bits) -> bool, from: Vec2Bits, to: Vec2Bits, n: nat) -> bool
    decreases n,
{
    if n == 0 {
        from == to
    } else {
        exists|mid: Vec2Bits| moved_times(step, from, mid, (n - 1) as nat) && #[trigger] step(mid, to)
    }
}

/// Moving once is one step; moving zero times stays put.
pub proof fn lemma_moved_once(step: spec_fn(Vec2Bits, Vec2Bits) -> bool, from: Vec2Bits, to: Vec2Bits)
    ensures
        moved_times(step, from, to, 1) <==> step(from, to),
        moved_times(step, from, to, 0) <==> from == to,
{
    if step(from, to) {
        assert(moved_times(step, from, from, 0));
    }
    if moved_times(step, from, to, 1) {
        let mid = choose|mid: Vec2Bits| moved_times(step, from, mid, 0) && #[trigger] step(mid, to);
        assert(mid == from);
    }
}

/// The model after the selected, unlocked objects of `m` are moved, each
/// identifier's object once per occurrence in the selection, by `step`; the
/// selection and history stay, and the model is marked changed.
pub open spec fn moved_selection(m: EditorModel, m2: EditorModel, step: spec_fn(Vec2Bits, Vec2Bits) -> bool) -> bool {
    &&& m2.selected == m.selected
    &&& m2.undo == m.undo
    &&& m2.redo == m.redo
    &&& m2.dirty
    &&& m2.objects.len() == m.objects.len()
    &&& forall|i: int|
        0 <= i < m.objects.len() ==> {
            let o = #[trigger] m.objects[i];
            let n = m2.objects[i];
            &&& n == (PlacedObjectView { position: n.position, ..o })
            &&& o.locked ==> n.position == o.position
            &&& !o.locked ==> moved_times(step, o.position, n.position, occurrences(m.selected, o.id))
        }
}

/// What the keys of a frame ask of the editor, before any mouse handling.
#[derive(Debug, Clone, Copy, PartialEq, Eq, Structural)]
pub enum Shortcut {
    /// Delete the selected objects.
    DeleteSelected,
    /// Redo the last undone change.
    Redo,
    /// Undo the last change.
    Undo,
    /// Select every unlocked object.
    SelectAll,
    /// Switch to a tool.
    UseTool(EditorTool),
    /// Turn grid snapping on or off.
    ToggleGrid,
    /// No shortcut: the mouse is handled by the current tool.
    Nothing,
}

/// Whether a Control or Super (Command) key is among the held keys.
pub open spec fn command_held(down: Set<u32>) -> bool {
    down.contains(KEY_CONTROL_LEFT) || down.contains(KEY_CONTROL_RIGHT) || down.contains(KEY_SUPER_LEFT)
        || down.contains(KEY_SUPER_RIGHT)
}

/// The shortcut of a frame whose held keys are `down` and whose newly pressed
/// keys are `just`, the first that applies of: Delete or Backspace deletes
/// the selection; Ctrl+Z undoes, or redoes with left Shift held; Ctrl+A
/// selects all; V, P, E, H and B pick the select, place, erase, pan and paint
/// tools; G toggles grid snapping.
pub open spec fn shortcut_of(down: Set<u32>, just: Set<u32>) -> Shortcut {
    if just.contains(KEY_DELETE) || just.contains(KEY_BACKSPACE) {
        Shortcut::DeleteSelected
    } else if command_held(down) && just.contains(KEY_Z) {
        if down.contains(KEY_SHIFT_LEFT) {
            Shortcut::Redo
        } else {
            Shortcut::Undo
        }
    } else if command_held(down) && just.contains(KEY_A) {
        Shortcut::SelectAll
    } else if just.contains(KEY_V) {
        Shortcut::UseTool(EditorTool::Select)
    } else if just.contains(KEY_P) {
        Shortcut::UseTool(EditorTool::Place)
    } else if just.contains(KEY_E) {
        Shortcut::UseTool(EditorTool::Erase)
    } else if just.contains(KEY_H) {
        Shortcut::UseTool(EditorTool::Pan)
    } else if just.contains(KEY_B) {
        Shortcut::UseTool(EditorTool::Paint)
    } else if just.contains(KEY_G) {
        Shortcut::ToggleGrid
    } else {
        Shortcut::Nothing
    }
}

/// The model after a shortcut.
pub open spec fn after_shortcut(m: EditorModel, s: Shortcut, max: usize) -> EditorModel {
    match s {
        Shortcut::DeleteSelected => after_delete_all(m, m.selected, max),
        Shortcut::Redo => after_redo(m),
        Shortcut::Undo => after_undo(m),
        Shortcut::SelectAll => after_select_all(m),
        _ => m,
    }
}

/// The frame after a shortcut.
pub open spec fn shortcut_frame(fr: EditorFrame, s: Shortcut) -> EditorFrame {
    match s {
        Shortcut::UseTool(t) => EditorFrame { tool: ToolState { tool: t, ..fr.tool }, ..fr },
        Shortcut::ToggleGrid => EditorFrame {
            config: EditorConfig {
                grid: GridConfig { enabled: !fr.config.grid.enabled, ..fr.config.grid },
                ..fr.config
            },
            ..fr
        },
        _ => fr,
    }
}

/// Whether the editor ignores input: it is off, or its panel has focus.
pub open spec fn input_blocked(fr: EditorFrame) -> bool {
    !fr.config.enabled || fr.panel_focused
}

/// The frame once the pointer is known: the mouse at `mouse`, over `hovered`.
pub open spec fn pointed(fr: EditorFrame, mouse: Vec2Bits, hovered: Option<MapObjectId>) -> EditorFrame {
    EditorFrame { mouse_world_pos: mouse, hovered, ..fr }
}

/// Whether the left mouse button is held.
pub open spec fn left_held(input: &InputState) -> bool {
    input.buttons_down().contains(MOUSE_LEFT)
}

/// Whether the left mouse button was pressed this frame.
pub open spec fn left_pressed(input: &InputState) -> bool {
    input.buttons_just_pressed().contains(MOUSE_LEFT)
}

/// Whether the left mouse button was released this frame.
pub open spec fn left_released(input: &InputState) -> bool {
    input.buttons_just_released().contains(MOUSE_LEFT)
}

/// A newly placed object: identifier `id`, type `object_type`, at `position`
/// on `layer`, unrotated, unscaled, with no overrides, unselected, unlocked
/// and unnamed.
pub open spec fn fresh_placed(id: MapObjectId, object_type: Seq<char>, position: Vec2Bits, layer: i32) -> PlacedObjectView {
    PlacedObjectView {
        id,
        object_type,
        position,
        rotation_bits: 0,
        scale: Vec2Bits { x_bits: 0x3f80_0000, y_bits: 0x3f80_0000 },
        layer,
        property_overrides: Seq::empty(),
        selected: false,
        locked: false,
        instance_name: None,
    }
}

/// Whether `m2` is `m` after the palette's selected asset, if it is a
/// registered type, is placed with identifier `id` at a snapped mouse
/// position (a result of `snap` for `mouse`); otherwise `m2` is `m`.
pub open spec fn placed_selected<F: Fn(Vec2Bits) -> Vec2Bits>(
    m: EditorModel,
    pal: AssetPalette,
    mouse: Vec2Bits,
    snap: F,
    id: MapObjectId,
    max: usize,
    m2: EditorModel,
) -> bool {
    match pal.selected_name() {
        Some(n) => if pal.entries().contains_key(n) {
            exists|p: Vec2Bits|
                #[trigger] snap.ensures((mouse,), p) && m2 == after_place(
                    m,
                    fresh_placed(id, n, p, pal.entries()[n].object.default_layer),
                    max,
                )
        } else {
            m2 == m
        },
        None => m2 == m,
    }
}

/// The model after selecting the identifiers in order.
pub open spec fn after_select_each(m: EditorModel, ids: Seq<MapObjectId>) -> EditorModel
    decreases ids.len(),
{
    if ids.len() == 0 {
        m
    } else {
        after_select(after_select_each(m, ids.drop_last()), ids.last())
    }
}

/// The step of a drag: `b` is the snapped sum of `a` and `delta`.
pub open spec fn shift_step<F: Fn(Vec2Bits) -> Vec2Bits, A: Fn(Vec2Bits, Vec2Bits) -> Vec2Bits>(
    plus: A,
    snap: F,
    delta: Vec2Bits,
) -> spec_fn(Vec2Bits, Vec2Bits) -> bool {
    |a: Vec2Bits, b: Vec2Bits| exists|t: Vec2Bits| #[trigger] plus.ensures((a, delta), t) && snap.ensures((t,), b)
}

/// Whether `delta` is the displacement of a drag: the mouse plus the drag
/// offset, less the position of the dragged object `did` (zero when it is gone).
pub open spec fn drag_delta<A: Fn(Vec2Bits, Vec2Bits) -> Vec2Bits, S: Fn(Vec2Bits, Vec2Bits) -> Vec2Bits>(
    objects: Seq<PlacedObjectView>,
    mouse: Vec2Bits,
    offset: Vec2Bits,
    did: MapObjectId,
    plus: A,
    minus: S,
    delta: Vec2Bits,
) -> bool {
    exists|target: Vec2Bits|
        #[trigger] plus.ensures((mouse, offset), target) && if has_id(objects, did) {
            minus.ensures((target, objects[id_position(objects, did)].position), delta)
        } else {
            delta == (Vec2Bits { x_bits: ZERO_BITS, y_bits: ZERO_BITS })
        }
}

/// Whether `m2` is `m` after a drag step: every selected, unlocked object is
/// shifted by the drag's displacement and snapped (no undo step is saved).
pub open spec fn dragged<F: Fn(Vec2Bits) -> Vec2Bits, A: Fn(Vec2Bits, Vec2Bits) -> Vec2Bits, S: Fn(Vec2Bits, Vec2Bits) -> Vec2Bits>(
    m: EditorModel,
    m2: EditorModel,
    mouse: Vec2Bits,
    offset: Vec2Bits,
    did: MapObjectId,
    snap: F,
    plus: A,
    minus: S,
) -> bool {
    exists|delta: Vec2Bits|
        #[trigger] drag_delta(m.objects, mouse, offset, did, plus, minus, delta) && moved_selection(
            m,
            m2,
            shift_step(plus, snap, delta),
        )
}

/// What the select tool does with a frame's left button, from model `m` and
/// frame `fr` (pointer already known) to `m2` and `fr2`, and whether the
/// input is consumed. A press on an object selects it (alone, unless left
/// Shift is held or it was already selected; a press on a selected object
/// deselects it) and starts dragging it; a press elsewhere clears the
/// selection and starts a selection rectangle. Holding the button stretches
/// the rectangle or drags the selection. Releasing it selects the objects
/// `in_rect` found in the rectangle, or ends the drag.
pub open spec fn select_handled<F: Fn(Vec2Bits) -> Vec2Bits, A: Fn(Vec2Bits, Vec2Bits) -> Vec2Bits, S: Fn(Vec2Bits, Vec2Bits) -> Vec2Bits>(
    m: EditorModel,
    fr: EditorFrame,
    input: &InputState,
    in_rect: Seq<MapObjectId>,
    snap: F,
    plus: A,
    minus: S,
    m2: EditorModel,
    fr2: EditorFrame,
    consumed: bool,
) -> bool {
    let t = fr.tool;
    let mouse = fr.mouse_world_pos;
    if left_pressed(input) {
        &&& consumed
        &&& match fr.hovered {
            Some(id) => {
                let m1 = if !input.keys_down().contains(KEY_SHIFT_LEFT) && !m.selected.contains(id) {
                    after_clear_selection(m)
                } else {
                    m
                };
                &&& m2 == after_toggle(m1, id)
                &&& if has_id(m2.objects, id) {
                    &&& fr2.tool.drag_offset matches Some(off) && minus.ensures(
                        (m2.objects[id_position(m2.objects, id)].position, mouse),
                        off,
                    )
                    &&& fr2 == (EditorFrame {
                        tool: ToolState { drag_offset: fr2.tool.drag_offset, ..t },
                        dragging: Some(id),
                        ..fr
                    })
                } else {
                    fr2 == fr
                }
            },
            None => m2 == after_clear_selection(m) && fr2 == (EditorFrame { tool: t.begun_at(mouse), ..fr }),
        }
    } else if left_held(input) && t.active {
        consumed && m2 == m && fr2 == (EditorFrame { tool: t.moved_to(mouse), ..fr })
    } else if left_held(input) {
        &&& consumed
        &&& fr2 == fr
        &&& match (t.drag_offset, fr.dragging) {
            (Some(off), Some(did)) => dragged(m, m2, mouse, off, did, snap, plus, minus),
            _ => m2 == m,
        }
    } else if left_released(input) {
        &&& consumed
        &&& if t.active {
            &&& m2 == (if t.start_pos is Some && t.current_pos is Some {
                after_select_each(m, in_rect)
            } else {
                m
            })
            &&& fr2 == (EditorFrame { tool: t.ended(), ..fr })
        } else {
            &&& m2 == m
            &&& fr2 == (EditorFrame { tool: ToolState { drag_offset: None, ..t }, dragging: None, ..fr })
        }
    } else {
        !consumed && m2 == m && fr2 == fr
    }
}

/// What the paint tool does with a frame's left button: a press begins a
/// stroke; while the button is held and `paint_due` (far enough from the last
/// painted spot) the selected asset is placed at the snapped mouse position
/// and the spot recorded, consuming the input; a release ends the stroke.
pub open spec fn paint_handled<F: Fn(Vec2Bits) -> Vec2Bits>(
    m: EditorModel,
    fr: EditorFrame,
    pal: AssetPalette,
    input: &InputState,
    paint_due: bool,
    snap: F,
    id: MapObjectId,
    max: usize,
    m2: EditorModel,
    fr2: EditorFrame,
    consumed: bool,
) -> bool {
    let mouse = fr.mouse_world_pos;
    let t1 = if left_pressed(input) {
        fr.tool.begun_at(mouse)
    } else {
        fr.tool
    };
    if left_held(input) && paint_due {
        &&& consumed
        &&& placed_selected(m, pal, mouse, snap, id, max, m2)
        &&& fr2 == (EditorFrame {
            tool: if pal.selected_name() is Some {
                t1.painted_at(mouse)
            } else {
                t1
            },
            ..fr
        })
    } else {
        &&& !consumed
        &&& m2 == m
        &&& fr2 == (EditorFrame {
            tool: if left_released(input) {
                t1.ended()
            } else {
                t1
            },
            ..fr
        })
    }
}

/// What the current tool does with a frame's left button (see
/// [`select_handled`] and [`paint_handled`]): the place tool places the
/// selected asset on a press; the erase tool deletes the hovered object while
/// the button is held; the pan and measure tools leave everything to the
/// camera and consume nothing.
pub open spec fn pointer_handled<F: Fn(Vec2Bits) -> Vec2Bits, A: Fn(Vec2Bits, Vec2Bits) -> Vec2Bits, S: Fn(Vec2Bits, Vec2Bits) -> Vec2Bits>(
    m: EditorModel,
    fr: EditorFrame,
    pal: AssetPalette,
    input: &InputState,
    in_rect: Seq<MapObjectId>,
    paint_due: bool,
    snap: F,
    plus: A,
    minus: S,
    id: MapObjectId,
    max: usize,
    m2: EditorModel,
    fr2: EditorFrame,
    consumed: bool,
) -> bool {
    match fr.tool.tool {
        EditorTool::Select => select_handled(m, fr, input, in_rect, snap, plus, minus, m2, fr2, consumed),
        EditorTool::Place => if left_pressed(input) {
            consumed && fr2 == fr && placed_selected(m, pal, fr.mouse_world_pos, snap, id, max, m2)
        } else {
            !consumed && m2 == m && fr2 == fr
        },
        EditorTool::Erase => if left_held(input) {
            &&& consumed
            &&& fr2 == fr
            &&& m2 == match fr.hovered {
                Some(h) => after_delete(m, h, max),
                None => m,
            }
        } else {
            !consumed && m2 == m && fr2 == fr
        },
        EditorTool::Paint => paint_handled(m, fr, pal, input, paint_due, snap, id, max, m2, fr2, consumed),
        EditorTool::Pan | EditorTool::Measure => !consumed && m2 == m && fr2 == fr,
    }
}

/// Whether editor `e2` and the answer `consumed` are what one frame of input
/// makes of editor `e` (see [`MapEditor::handle_input`]): the palette stays;
/// a blocked editor changes nothing and consumes nothing; a shortcut is
/// applied, with the mouse moved, and consumes the input; otherwise the
/// current tool handles the left button, with the pointer known.
pub open spec fn input_handled<F: Fn(Vec2Bits) -> Vec2Bits, A: Fn(Vec2Bits, Vec2Bits) -> Vec2Bits, S: Fn(Vec2Bits, Vec2Bits) -> Vec2Bits>(
    e: MapEditor,
    e2: MapEditor,
    input: &InputState,
    mouse_world: Vec2Bits,
    hovered: Option<MapObjectId>,
    in_rect: Seq<MapObjectId>,
    paint_due: bool,
    snap: F,
    plus: A,
    minus: S,
    new_id: MapObjectId,
    consumed: bool,
) -> bool {
    let s = shortcut_of(input.keys_down(), input.keys_just_pressed());
    &&& e2.palette_of() == e.palette_of()
    &&& input_blocked(e.frame()) ==> {
        &&& !consumed
        &&& e2.model() == e.model()
        &&& e2.frame() == e.frame()
    }
    &&& !input_blocked(e.frame()) && s != Shortcut::Nothing ==> {
        &&& consumed
        &&& e2.model() == after_shortcut(e.model(), s, e.undo_limit())
        &&& e2.frame() == shortcut_frame(EditorFrame { mouse_world_pos: mouse_world, ..e.frame() }, s)
    }
    &&& !input_blocked(e.frame()) && s == Shortcut::Nothing ==> pointer_handled(
        e.model(),
        pointed(e.frame(), mouse_world, hovered),
        e.palette_of(),
        input,
        in_rect,
        paint_due,
        snap,
        plus,
        minus,
        new_id,
        e.undo_limit(),
        e2.model(),
        e2.frame(),
        consumed,
    )
}

/// Changing objects without changing their identifiers keeps an index exact.
proof fn lemma_same_ids(index: Map<u64, usize>, s: Seq<PlacedObjectView>, ns: Seq<PlacedObjectView>)
    requires
        indexes(index, s),
        distinct_ids(s),
        ns.len() == s.len(),
        forall|i: int| 0 <= i < s.len() ==> #[trigger] ns[i].id == s[i].id,
    ensures
        indexes(index, ns),
        distinct_ids(ns),
{
    assert forall|a: int, b: int| 0 <= a < ns.len() && 0 <= b < ns.len() && a != b implies ns[a].id
        != ns[b].id by {
        assert(ns[a].id == s[a].id && ns[b].id == s[b].id);
    }
    assert forall|a: int| 0 <= a < ns.len() implies #[trigger] index.contains_key(ns[a].id.0)
        && index[ns[a].id.0] == a by {
        assert(ns[a].id == s[a].id);
        assert(index.contains_key(s[a].id.0));
    }
    assert forall|k: u64| #[trigger] index.contains_key(k) implies index[k] < ns.len() && ns[index[k] as int].id.0
        == k by {
        assert(ns[index[k] as int].id == s[index[k] as int].id);
    }
}

/// Changing objects without changing their identifiers keeps an index exact,
/// whatever the changed objects.
proof fn lemma_same_ids_all(index: Map<u64, usize>, s: Seq<PlacedObjectView>)
    requires
        indexes(index, s),
        distinct_ids(s),
    ensures
        forall|ns: Seq<PlacedObjectView>|
            ns.len() == s.len() && (forall|i: int| 0 <= i < s.len() ==> #[trigger] ns[i].id == s[i].id)
                ==> #[trigger] indexes(index, ns) && distinct_ids(ns),
{
    assert forall|ns: Seq<PlacedObjectView>|
        ns.len() == s.len() && (forall|i: int| 0 <= i < s.len() ==> #[trigger] ns[i].id == s[i].id) implies #[trigger] indexes(
        index,
        ns,
    ) && distinct_ids(ns) by {
        lemma_same_ids(index, s, ns);
    }
}

/// The views of a list with one object replaced.
proof fn lemma_views_update(v: Seq<PlacedObject>)
    ensures
        forall|i: int, o: PlacedObject|
            0 <= i < v.len() ==> #[trigger] views(v.update(i, o)) == views(v).update(i, o@),
{
    assert forall|i: int, o: PlacedObject| 0 <= i < v.len() implies #[trigger] views(v.update(i, o)) == views(
        v,
    ).update(i, o@) by {
        assert(views(v.update(i, o)) =~= views(v).update(i, o@));
    }
}

/// The map editor.
pub struct MapEditor {
    /// Editor configuration.
    pub config: EditorConfig,
    /// Current editor state.
    pub state: EditorState,
    /// Asset palette.
    pub palette: AssetPalette,
    /// Tool state.
    pub tool: ToolState,
    pub(crate) objects: Vec<PlacedObject>,
    pub(crate) object_index: HashMap<u64, usize>,
    pub(crate) map_name: String,
    pub(crate) dirty: bool,
    pub(crate) undo_stack: Vec<Vec<PlacedObject>>,
    pub(crate) redo_stack: Vec<Vec<PlacedObject>>,
}

/// The views of a list of placed objects.
pub open spec fn views(v: Seq<PlacedObject>) -> Seq<PlacedObjectView> {
    v.map_values(|o: PlacedObject| o@)
}

/// The views of a list of saved object lists.
pub open spec fn history_views(v: Seq<Vec<PlacedObject>>) -> Seq<Seq<PlacedObjectView>> {
    v.map_values(|l: Vec<PlacedObject>| views(l@))
}

/// Whether `index` maps each identifier of `s` (by its number) to its position, and nothing else.
pub open spec fn indexes(index: Map<u64, usize>, s: Seq<PlacedObjectView>) -> bool {
    &&& forall|i: int|
        0 <= i < s.len() ==> #[trigger] index.contains_key(s[i].id.0) && index[s[i].id.0] == i
    &&& forall|k: u64|
        #[trigger] index.contains_key(k) ==> index[k] < s.len() && s[index[k] as int].id.0 == k
}

/// Whether `e` is a new, well-formed editor with configuration `config`:
/// default state, no objects or history, an empty palette, named "Untitled".
pub open spec fn fresh_editor(e: MapEditor, config: EditorConfig) -> bool {
    &&& e.wf()
    &&& e.frame() == initial_frame(config)
    &&& e.model() == initial_model()
    &&& e.palette_of().entries() == Map::<Seq<char>, crate::asset_palette::AssetEntry>::empty()
    &&& e.palette_of().category_order() == Seq::<Seq<char>>::empty()
    &&& e.palette_of().category_map() == Map::<Seq<char>, Seq<Seq<char>>>::empty()
    &&& e.palette_of().expanded() == Map::<Seq<char>, bool>::empty()
    &&& e.palette_of().selected_name() is None
    &&& e.palette_of().filter() == Seq::<char>::empty()
}

impl MapEditor {
    /// The editor's internal invariant: identifiers are distinct in the
    /// objects and in every saved list, the index is exact, and the palette is
    /// well formed.
    pub closed spec fn wf(&self) -> bool {
        &&& distinct_ids(views(self.objects@))
        &&& indexes(self.object_index@, views(self.objects@))
        &&& forall|j: int|
            0 <= j < self.undo_stack@.len() ==> #[trigger] distinct_ids(views(self.undo_stack@[j]@))
        &&& forall|j: int|
            0 <= j < self.redo_stack@.len() ==> #[trigger] distinct_ids(views(self.redo_stack@[j]@))
        &&& self.palette.wf()
    }

    /// The objects, selection, history and dirty flag.
    pub closed spec fn model(&self) -> EditorModel {
        EditorModel {
            objects: views(self.objects@),
            selected: self.state.selected@,
            undo: history_views(self.undo_stack@),
            redo: history_views(self.redo_stack@),
            dirty: self.dirty,
        }
    }

    /// The configuration, tool, non-selection state and map name.
    pub closed spec fn frame(&self) -> EditorFrame {
        EditorFrame {
            config: self.config,
            tool: self.tool,
            hovered: self.state.hovered,
            dragging: self.state.dragging,
            mouse_world_pos: self.state.mouse_world_pos,
            status_message: match self.state.status_message {
                Some(m) => Some(m@),
                None => None,
            },
            panel_focused: self.state.panel_focused,
            name: self.map_name@,
        }
    }

    /// The asset palette.
    pub closed spec fn palette_of(&self) -> AssetPalette {
        self.palette
    }

    /// How many undo steps are kept.
    pub open spec fn undo_limit(&self) -> usize {
        self.frame().config.max_undo_steps
    }

    /// Whether `e` and `f` agree on everything but the model.
    pub open spec fn same_frame(e: &MapEditor, f: &MapEditor) -> bool {
        &&& e.frame() == f.frame()
        &&& e.palette_of() == f.palette_of()
    }

    /// A new editor with the given configuration, the default state, an empty
    /// palette, a new tool state, no objects, no history, named "Untitled".
    pub fn with_config(config: EditorConfig) -> (e: MapEditor)
        ensures
            fresh_editor(e, config),
    {
        let e = MapEditor {
            config,
            state: EditorState::default(),
            palette: AssetPalette::new(),
            tool: ToolState::new(),
            objects: Vec::new(),
            object_index: HashMap::new(),
            map_name: "Untitled".to_owned(),
            dirty: false,
            undo_stack: Vec::new(),
            redo_stack: Vec::new(),
        };
        assert(e.model().objects =~= Seq::empty());
        assert(e.model().undo =~= Seq::empty());
        assert(e.model().redo =~= Seq::empty());
        e
    }

    /// A new editor with the default configuration.
    pub fn new() -> (e: MapEditor)
        ensures
            fresh_editor(e, default_config()),
    {
        MapEditor::with_config(EditorConfig::default())
    }

    /// The object with identifier `id`.
    pub fn get_object(&self, id: MapObjectId) -> (r: Option<&PlacedObject>)
        requires
            self.wf(),
        ensures
            match r {
                Some(o) => has_id(self.model().objects, id) && o@ == self.model().objects[id_position(
                    self.model().objects,
                    id,
                )] && o.id == id,
                None => !has_id(self.model().objects, id),
            },
    {
        let ghost s = views(self.objects@);
        match self.object_index.get(&id.0) {
            Some(i) => {
                let i = *i;
                proof {
                    assert(s[i as int].id == id);
                    assert(has_id(s, id));
                    let p = id_position(s, id);
                    assert(s[p].id == id);
                }
                Some(&self.objects[i])
            },
            None => {
                proof {
                    if has_id(s, id) {
                        let p = id_position(s, id);
                        assert(self.object_index@.contains_key(s[p].id.0));
                    }
                }
                None
            },
        }
    }


    /// The object with identifier `id`, for changing it in place. The editor
    /// stays well formed as long as the object keeps its identifier.
    pub fn get_object_mut(&mut self, id: MapObjectId) -> (r: Option<&mut PlacedObject>)
        requires
            old(self).wf(),
        ensures
            match r {
                Some(o) => {
                    let p = id_position(old(self).model().objects, id);
                    &&& has_id(old(self).model().objects, id)
                    &&& o@ == old(self).model().objects[p]
                    &&& final(self).model() == (EditorModel {
                        objects: old(self).model().objects.update(p, final(o)@),
                        ..old(self).model()
                    })
                    &&& MapEditor::same_frame(&*final(self), &*old(self))
                    &&& (final(o).id == id ==> final(self).wf())
                },
                None => {
                    &&& !has_id(old(self).model().objects, id)
                    &&& *final(self) == *old(self)
                },
            },
    {
        let ghost s = views(self.objects@);
        let i = match self.object_index.get(&id.0) {
            Some(i) => *i,
            None => {
                proof {
                    if has_id(s, id) {
                        let p = id_position(s, id);
                        assert(self.object_index@.contains_key(s[p].id.0));
                    }
                }
                return None;
            },
        };
        proof {
            assert(s[i as int].id == id);
            assert(has_id(s, id));
            let p = id_position(s, id);
            assert(s[p].id == id);
            assert(p == i);
        }
        proof {
            lemma_same_ids_all(self.object_index@, s);
            lemma_views_update(self.objects@);
        }
        let o = &mut self.objects[i];
        Some(o)
    }

    /// All placed objects.
    pub fn objects(&self) -> (r: &[PlacedObject])
        ensures
            views(r@) == self.model().objects,
    {
        self.objects.as_slice()
    }

    fn save_undo(&mut self)
        requires
            old(self).wf(),
        ensures
            final(self).wf(),
            final(self).model() == snapshot_taken(old(self).model(), old(self).undo_limit()),
            MapEditor::same_frame(&*final(self), &*old(self)),
            final(self).objects@ == old(self).objects@,
            final(self).object_index@ == old(self).object_index@,
    {
        let snapshot = self.objects.clone();
        proof {
            assert(views(snapshot@) =~= views(self.objects@));
        }
        let ghost u = self.undo_stack@.push(snapshot);
        self.undo_stack.push(snapshot);
        if self.undo_stack.len() > self.config.max_undo_steps {
            self.undo_stack.remove(0);
            proof {
                assert(self.undo_stack@ =~= u.subrange(1, u.len() as int));
            }
        }
        self.redo_stack.clear();
        proof {
            let m = old(self).model();
            let hu = history_views(u);
            assert(hu =~= m.undo.push(m.objects));
            if u.len() > old(self).undo_limit() {
                assert(history_views(self.undo_stack@) =~= hu.subrange(1, hu.len() as int));
            } else {
                assert(history_views(self.undo_stack@) =~= hu);
            }
            assert(history_views(self.redo_stack@) =~= Seq::empty());
            assert forall|j: int| 0 <= j < self.undo_stack@.len() implies #[trigger] distinct_ids(
                views(self.undo_stack@[j]@),
            ) by {
                if u.len() > old(self).undo_limit() {
                    assert(self.undo_stack@[j] == u[j + 1]);
                } else {
                    assert(self.undo_stack@[j] == u[j]);
                }
            }
        }
    }

    /// Places an object of the registered type `object_type` at `position`
    /// snapped to the grid by `snap`, with the new identifier `id`, on the
    /// type's default layer, after saving the objects for undo. An unknown
    /// type changes nothing and gives `None`.
    pub fn place_object<F: Fn(Vec2Bits) -> Vec2Bits>(
        &mut self,
        object_type: &str,
        position: Vec2Bits,
        snap: F,
        id: MapObjectId,
    ) -> (r: Option<MapObjectId>)
        requires
            old(self).wf(),
            !has_id(old(self).model().objects, id),
            forall|p: Vec2Bits| snap.requires((p,)),
        ensures
            final(self).wf(),
            MapEditor::same_frame(&*final(self), &*old(self)),
            old(self).palette_of().entries().contains_key(object_type@) ==> {
                &&& r == Some(id)
                &&& exists|snapped: Vec2Bits|
                    #[trigger] snap.ensures((position,), snapped) && final(self).model() == after_place(
                        old(self).model(),
                        fresh_placed(
                            id,
                            object_type@,
                            snapped,
                            old(self).palette_of().entries()[object_type@].object.default_layer,
                        ),
                        old(self).undo_limit(),
                    )
            },
            !old(self).palette_of().entries().contains_key(object_type@) ==> {
                &&& r is None
                &&& final(self).model() == old(self).model()
            },
    {
        let layer = match self.palette.get_object(object_type) {
            Some(o) => o.default_layer,
            None => return None,
        };
        let position = snap(position);
        let obj = PlacedObject::new(id, object_type, position).with_layer(layer);
        self.save_undo();
        let ghost s = views(self.objects@);
        let ghost old_index = self.object_index@;
        let index = self.objects.len();
        let ghost ov = obj@;
        self.objects.push(obj);
        self.object_index.insert(id.0, index);
        self.dirty = true;
        proof {
            let ns = views(self.objects@);
            assert(ns =~= s.push(ov));
            assert forall|i: int| 0 <= i < ns.len() implies #[trigger] self.object_index@.contains_key(
                ns[i].id.0,
            ) && self.object_index@[ns[i].id.0] == i by {
                if i < s.len() {
                    assert(ns[i] == s[i]);
                    assert(s[i].id != id);
                    assert(s[i].id.0 != id.0);
                    assert(old_index.contains_key(s[i].id.0) && old_index[s[i].id.0] == i);
                } else {
                    assert(ns[i] == ov);
                }
            }
            assert forall|k: u64| #[trigger] self.object_index@.contains_key(k) implies self.object_index@[k]
                < ns.len() && ns[self.object_index@[k] as int].id.0 == k by {
                if k != id.0 {
                    assert(old_index.contains_key(k));
                    assert(ns[old_index[k] as int] == s[old_index[k] as int]);
                }
            }
            assert forall|i: int, j: int|
                0 <= i < ns.len() && 0 <= j < ns.len() && i != j implies ns[i].id != ns[j].id by {
                if i < s.len() && j < s.len() {
                    assert(s[i].id != s[j].id);
                } else if i < s.len() {
                    assert(s[i].id != id);
                } else {
                    assert(s[j].id != id);
                }
            }
        }
        Some(id)
    }

    /// Deletes the object with identifier `id`, after saving the objects for
    /// undo: the last object takes its place, and it leaves the selection.
    /// Gives whether there was such an object; if not, nothing changes.
    #[verifier::spinoff_prover]
    pub fn delete_object(&mut self, id: MapObjectId) -> (r: bool)
        requires
            old(self).wf(),
        ensures
            final(self).wf(),
            MapEditor::same_frame(&*final(self), &*old(self)),
            r == has_id(old(self).model().objects, id),
            final(self).model() == after_delete(old(self).model(), id, old(self).undo_limit()),
    {
        let ghost s0 = views(self.objects@);
        let index = match self.object_index.get(&id.0) {
            Some(i) => *i,
            None => {
                proof {
                    if has_id(s0, id) {
                        let p = id_position(s0, id);
                        assert(self.object_index@.contains_key(s0[p].id.0));
                    }
                }
                return false;
            },
        };
        proof {
            assert(s0[index as int].id == id);
            assert(has_id(s0, id));
            let p = id_position(s0, id);
            assert(s0[p].id == id);
            assert(p == index);
        }
        self.save_undo();
        let ghost s = views(self.objects@);
        let ghost idx = self.object_index@;
        self.objects.swap_remove(index);
        self.object_index.remove(&id.0);
        if index < self.objects.len() {
            let swapped_id = self.objects[index].id;
            self.object_index.insert(swapped_id.0, index);
        }
        self.state.selected = ids_without(&self.state.selected, id);
        self.dirty = true;
        proof {
            let ns = views(self.objects@);
            let n = s.len();
            assert(ns =~= swap_removed(s, index as int));
            assert forall|i: int, j: int|
                0 <= i < ns.len() && 0 <= j < ns.len() && i != j implies ns[i].id != ns[j].id by {
                let oi = if i == index { n - 1 } else { i };
                let oj = if j == index { n - 1 } else { j };
                assert(ns[i] == s[oi] && ns[j] == s[oj]);
            }
            assert forall|i: int| 0 <= i < ns.len() implies #[trigger] self.object_index@.contains_key(
                ns[i].id.0,
            ) && self.object_index@[ns[i].id.0] == i by {
                if i == index {
                    assert(ns[i] == s[n - 1]);
                } else {
                    assert(ns[i] == s[i]);
                    assert(s[i].id != s[index as int].id);
                    assert(s[i].id != s[n - 1].id);
                }
            }
            assert forall|k: u64| #[trigger] self.object_index@.contains_key(k) implies self.object_index@[k]
                < ns.len() && ns[self.object_index@[k] as int].id.0 == k by {
                if index < ns.len() && k == s[n - 1].id.0 {
                } else {
                    let p = idx[k] as int;
                    assert(s[p].id.0 == k);
                    assert(p != index);
                    assert(p != n - 1);
                    assert(ns[p] == s[p]);
                }
            }
        }
        true
    }

    fn set_flag(&mut self, id: MapObjectId, flag: bool)
        requires
            old(self).wf(),
        ensures
            final(self).wf(),
            MapEditor::same_frame(&*final(self), &*old(self)),
            final(self).model() == (EditorModel {
                objects: flagged(old(self).model().objects, id, flag),
                ..old(self).model()
            }),
            final(self).state.selected == old(self).state.selected,
    {
        let ghost s = views(self.objects@);
        match self.object_index.get(&id.0) {
            Some(i) => {
                let i = *i;
                let mut o = self.objects[i].clone();
                o.selected = flag;
                self.objects.set(i, o);
                proof {
                    assert(s[i as int].id == id);
                    assert(has_id(s, id));
                    let p = id_position(s, id);
                    assert(s[p].id == id);
                    assert(p == i);
                    let ns = views(self.objects@);
                    assert(ns =~= flagged(s, id, flag));
                    assert forall|a: int, b: int|
                        0 <= a < ns.len() && 0 <= b < ns.len() && a != b implies ns[a].id != ns[b].id by {
                        assert(ns[a].id == s[a].id && ns[b].id == s[b].id);
                    }
                    assert forall|a: int| 0 <= a < ns.len() implies #[trigger] self.object_index@.contains_key(
                        ns[a].id.0,
                    ) && self.object_index@[ns[a].id.0] == a by {
                        assert(ns[a].id == s[a].id);
                        assert(self.object_index@.contains_key(s[a].id.0));
                    }
                    assert forall|k: u64| #[trigger] self.object_index@.contains_key(k) implies self.object_index@[k]
                        < ns.len() && ns[self.object_index@[k] as int].id.0 == k by {
                        assert(ns[self.object_index@[k] as int].id == s[self.object_index@[k] as int].id);
                    }
                }
            },
            None => {
                proof {
                    if has_id(s, id) {
                        let p = id_position(s, id);
                        assert(self.object_index@.contains_key(s[p].id.0));
                    }
                }
            },
        }
    }

    /// Selects the object with identifier `id`: it joins the selection unless
    /// it is already selected, and its object (if any) is flagged selected.
    pub fn select(&mut self, id: MapObjectId)
        requires
            old(self).wf(),
        ensures
            final(self).wf(),
            MapEditor::same_frame(&*final(self), &*old(self)),
            final(self).model() == after_select(old(self).model(), id),
    {
        if !holds_id(&self.state.selected, id) {
            self.state.selected.push(id);
            self.set_flag(id, true);
        }
    }

    /// Deselects `id`: it leaves the selection and its object (if any) is
    /// flagged as not selected.
    pub fn deselect(&mut self, id: MapObjectId)
        requires
            old(self).wf(),
        ensures
            final(self).wf(),
            MapEditor::same_frame(&*final(self), &*old(self)),
            final(self).model() == after_deselect(old(self).model(), id),
    {
        self.state.selected = ids_without(&self.state.selected, id);
        self.set_flag(id, false);
    }

    /// Toggles the selection of `id`.
    pub fn toggle_select(&mut self, id: MapObjectId)
        requires
            old(self).wf(),
        ensures
            final(self).wf(),
            MapEditor::same_frame(&*final(self), &*old(self)),
            final(self).model() == after_toggle(old(self).model(), id),
    {
        if holds_id(&self.state.selected, id) {
            self.deselect(id);
        } else {
            self.select(id);
        }
    }

    /// Clears the selection, flagging the selected objects as not selected.
    pub fn clear_selection(&mut self)
        requires
            old(self).wf(),
        ensures
            final(self).wf(),
            MapEditor::same_frame(&*final(self), &*old(self)),
            final(self).model() == after_clear_selection(old(self).model()),
    {
        let ids = self.state.selected.clone();
        let ghost s = views(self.objects@);
        proof {
            assert(ids@ =~= old(self).state.selected@);
            assert(unflagged(s, ids@.subrange(0, 0)) =~= s);
        }
        let mut k: usize = 0;
        while k < ids.len()
            invariant
                self.wf(),
                MapEditor::same_frame(&*self, &*old(self)),
                ids@ == old(self).state.selected@,
                self.state.selected@ == old(self).state.selected@,
                k <= ids@.len(),
                s == old(self).model().objects,
                self.model() == (EditorModel {
                    objects: unflagged(s, ids@.subrange(0, k as int)),
                    ..old(self).model()
                }),
            decreases ids@.len() - k,
        {
            let ghost before = views(self.objects@);
            self.set_flag(ids[k], false);
            proof {
                let pre = ids@.subrange(0, k as int);
                let post = ids@.subrange(0, k + 1);
                assert(post =~= pre.push(ids@[k as int]));
                let target = unflagged(s, post);
                let now = views(self.objects@);
                assert(before == unflagged(s, pre));
                assert forall|i: int| 0 <= i < s.len() implies #[trigger] now[i] == target[i] by {
                    assert(before[i].id == s[i].id);
                    if has_id(before, ids@[k as int]) {
                        let p = id_position(before, ids@[k as int]);
                        assert(before[p].id == ids@[k as int]);
                        if p == i {
                            assert(post.contains(s[i].id)) by {
                                assert(post[k as int] == ids@[k as int]);
                            }
                        } else {
                            assert(s[p].id != s[i].id);
                            assert(s[i].id != ids@[k as int]);
                            assert(post.contains(s[i].id) == pre.contains(s[i].id)) by {
                                if post.contains(s[i].id) {
                                    let q = post.index_of(s[i].id);
                                    assert(post[q] == s[i].id);
                                    if q < k {
                                        assert(pre[q] == s[i].id);
                                    }
                                }
                                if pre.contains(s[i].id) {
                                    let q = pre.index_of(s[i].id);
                                    assert(post[q] == s[i].id);
                                }
                            }
                        }
                    } else {
                        assert(s[i].id != ids@[k as int]);
                        assert(post.contains(s[i].id) == pre.contains(s[i].id)) by {
                            if post.contains(s[i].id) {
                                let q = post.index_of(s[i].id);
                                assert(post[q] == s[i].id);
                                if q < k {
                                    assert(pre[q] == s[i].id);
                                }
                            }
                            if pre.contains(s[i].id) {
                                let q = pre.index_of(s[i].id);
                                assert(post[q] == s[i].id);
                            }
                        }
                    }
                }
                assert(now =~= target);
            }
            k = k + 1;
        }
        proof {
            assert(ids@.subrange(0, k as int) =~= ids@);
        }
        self.state.selected.clear();
        proof {
            assert(self.state.selected@ =~= Seq::<MapObjectId>::empty());
        }
    }

    /// Selects every unlocked object, in object order; the selection is
    /// replaced and the selected objects are flagged.
    pub fn select_all(&mut self)
        requires
            old(self).wf(),
        ensures
            final(self).wf(),
            MapEditor::same_frame(&*final(self), &*old(self)),
            final(self).model() == after_select_all(old(self).model()),
    {
        let ghost s = views(self.objects@);
        self.state.selected.clear();
        let mut i: usize = 0;
        while i < self.objects.len()
            invariant
                self.wf(),
                MapEditor::same_frame(&*self, &*old(self)),
                s == old(self).model().objects,
                i <= s.len(),
                self.objects@.len() == s.len(),
                self.undo_stack@ == old(self).undo_stack@,
                self.redo_stack@ == old(self).redo_stack@,
                self.dirty == old(self).dirty,
                self.state.selected@ == unlocked_ids(s.subrange(0, i as int)),
                forall|j: int| 0 <= j < s.len() ==> #[trigger] views(self.objects@)[j] == if j < i && !s[j].locked {
                    PlacedObjectView { selected: true, ..s[j] }
                } else {
                    s[j]
                },
            decreases s.len() - i,
        {
            proof {
                assert(s.subrange(0, i + 1).drop_last() =~= s.subrange(0, i as int));
                assert(views(self.objects@)[i as int] == s[i as int]);
            }
            let ghost before = views(self.objects@);
            if !self.objects[i].locked {
                let mut o = self.objects[i].clone();
                o.selected = true;
                let oid = o.id;
                let ghost ov = o@;
                self.objects.set(i, o);
                self.state.selected.push(oid);
                proof {
                    assert(views(self.objects@) =~= before.update(i as int, ov));
                }
            }
            proof {
                let ns = views(self.objects@);
                assert forall|a: int| 0 <= a < ns.len() implies ns[a].id == s[a].id by {
                    assert(before[a].id == s[a].id);
                }
                assert forall|a: int, b: int|
                    0 <= a < ns.len() && 0 <= b < ns.len() && a != b implies ns[a].id != ns[b].id by {
                    assert(ns[a].id == s[a].id && ns[b].id == s[b].id);
                }
                assert forall|a: int| 0 <= a < ns.len() implies #[trigger] self.object_index@.contains_key(
                    ns[a].id.0,
                ) && self.object_index@[ns[a].id.0] == a by {
                    assert(ns[a].id == s[a].id);
                    assert(before[a].id == s[a].id);
                    assert(self.object_index@.contains_key(before[a].id.0));
                }
                assert forall|k: u64| #[trigger] self.object_index@.contains_key(k) implies self.object_index@[k]
                    < ns.len() && ns[self.object_index@[k] as int].id.0 == k by {
                    assert(ns[self.object_index@[k] as int].id == before[self.object_index@[k] as int].id);
                }
            }
            i = i + 1;
        }
        proof {
            assert(s.subrange(0, i as int) =~= s);
            assert(views(self.objects@) =~= after_select_all(old(self).model()).objects);
        }
    }

    /// Restores the index from the objects, and drops from the selection the
    /// identifiers that are no longer present.
    fn rebuild_index(&mut self)
        requires
            distinct_ids(views(old(self).objects@)),
            forall|j: int|
                0 <= j < old(self).undo_stack@.len() ==> #[trigger] distinct_ids(
                    views(old(self).undo_stack@[j]@),
                ),
            forall|j: int|
                0 <= j < old(self).redo_stack@.len() ==> #[trigger] distinct_ids(
                    views(old(self).redo_stack@[j]@),
                ),
            old(self).palette.wf(),
        ensures
            final(self).wf(),
            MapEditor::same_frame(&*final(self), &*old(self)),
            final(self).model() == (EditorModel {
                selected: old(self).model().selected.filter(present_in(old(self).model().objects)),
                ..old(self).model()
            }),
    {
        let ghost s = views(self.objects@);
        self.object_index.clear();
        let mut i: usize = 0;
        while i < self.objects.len()
            invariant
                s == views(self.objects@),
                distinct_ids(s),
                i <= s.len(),
                self.objects@ == old(self).objects@,
                self.undo_stack@ == old(self).undo_stack@,
                self.redo_stack@ == old(self).redo_stack@,
                self.state.selected@ == old(self).state.selected@,
                self.dirty == old(self).dirty,
                MapEditor::same_frame(&*self, &*old(self)),
                forall|j: int|
                    0 <= j < i ==> #[trigger] self.object_index@.contains_key(s[j].id.0)
                        && self.object_index@[s[j].id.0] == j,
                forall|k: u64|
                    #[trigger] self.object_index@.contains_key(k) ==> self.object_index@[k] < i
                        && s[self.object_index@[k] as int].id.0 == k,
            decreases s.len() - i,
        {
            let ghost before = self.object_index@;
            let key = self.objects[i].id.0;
            self.object_index.insert(key, i);
            proof {
                assert(s[i as int].id.0 == key);
                assert forall|j: int| 0 <= j < i + 1 implies #[trigger] self.object_index@.contains_key(
                    s[j].id.0,
                ) && self.object_index@[s[j].id.0] == j by {
                    if j < i {
                        assert(s[j].id != s[i as int].id);
                        assert(before.contains_key(s[j].id.0));
                    }
                }
            }
            i = i + 1;
        }
        let mut kept: Vec<MapObjectId> = Vec::new();
        let mut k: usize = 0;
        while k < self.state.selected.len()
            invariant
                indexes(self.object_index@, s),
                s == views(self.objects@),
                k <= self.state.selected@.len(),
                self.state.selected@ == old(self).state.selected@,
                kept@ == self.state.selected@.subrange(0, k as int).filter(present_in(s)),
            decreases self.state.selected@.len() - k,
        {
            proof {
                reveal(Seq::filter);
                assert(self.state.selected@.subrange(0, k + 1).drop_last() =~= self.state.selected@.subrange(
                    0,
                    k as int,
                ));
            }
            let x = self.state.selected[k];
            let present = self.object_index.contains_key(&x.0);
            proof {
                if has_id(s, x) {
                    let p = id_position(s, x);
                    assert(s[p].id == x);
                    assert(self.object_index@.contains_key(s[p].id.0));
                }
                if present {
                    let p = self.object_index@[x.0] as int;
                    assert(s[p].id.0 == x.0);
                    assert(s[p].id == x);
                }
                assert(present == has_id(s, x));
            }
            if present {
                kept.push(x);
            }
            k = k + 1;
        }
        proof {
            assert(self.state.selected@.subrange(0, k as int) =~= self.state.selected@);
        }
        self.state.selected = kept;
        proof {
            assert(history_views(self.undo_stack@) == history_views(old(self).undo_stack@));
        }
    }

    /// Removes every object (after saving them for undo), clears the
    /// selection and the hovered object.
    pub fn clear(&mut self)
        requires
            old(self).wf(),
        ensures
            final(self).wf(),
            final(self).frame() == (EditorFrame { hovered: None, ..old(self).frame() }),
            final(self).palette_of() == old(self).palette_of(),
            final(self).model() == after_clear(old(self).model(), old(self).undo_limit()),
    {
        self.save_undo();
        self.objects.clear();
        self.object_index.clear();
        self.state.selected.clear();
        self.state.hovered = None;
        self.dirty = true;
        proof {
            assert(views(self.objects@) =~= Seq::empty());
            assert(self.state.selected@ =~= Seq::<MapObjectId>::empty());
        }
    }

    /// Undoes the last saved change, if any.
    pub fn undo(&mut self)
        requires
            old(self).wf(),
        ensures
            final(self).wf(),
            MapEditor::same_frame(&*final(self), &*old(self)),
            final(self).model() == after_undo(old(self).model()),
    {
        let ghost m = self.model();
        match self.undo_stack.pop() {
            Some(state) => {
                let current = self.objects.clone();
                proof {
                    assert(views(current@) =~= views(self.objects@));
                    assert(distinct_ids(views(old(self).undo_stack@[old(self).undo_stack@.len() - 1]@)));
                }
                let ghost cv = views(current@);
                self.redo_stack.push(current);
                self.objects = state;
                proof {
                    assert(history_views(self.undo_stack@) =~= m.undo.drop_last());
                    assert(history_views(self.redo_stack@) =~= m.redo.push(m.objects));
                    assert forall|j: int| 0 <= j < self.undo_stack@.len() implies #[trigger] distinct_ids(
                        views(self.undo_stack@[j]@),
                    ) by {
                        assert(self.undo_stack@[j] == old(self).undo_stack@[j]);
                    }
                    assert forall|j: int| 0 <= j < self.redo_stack@.len() implies #[trigger] distinct_ids(
                        views(self.redo_stack@[j]@),
                    ) by {
                        if j < old(self).redo_stack@.len() {
                            assert(self.redo_stack@[j] == old(self).redo_stack@[j]);
                        } else {
                            assert(views(self.redo_stack@[j]@) == cv);
                        }
                    }
                }
                self.rebuild_index();
                self.dirty = true;
            },
            None => {},
        }
    }

    /// Redoes the last undone change, if any.
    pub fn redo(&mut self)
        requires
            old(self).wf(),
        ensures
            final(self).wf(),
            MapEditor::same_frame(&*final(self), &*old(self)),
            final(self).model() == after_redo(old(self).model()),
    {
        let ghost m = self.model();
        match self.redo_stack.pop() {
            Some(state) => {
                let current = self.objects.clone();
                proof {
                    assert(views(current@) =~= views(self.objects@));
                    assert(distinct_ids(views(old(self).redo_stack@[old(self).redo_stack@.len() - 1]@)));
                }
                let ghost cv = views(current@);
                self.undo_stack.push(current);
                self.objects = state;
                proof {
                    assert(history_views(self.redo_stack@) =~= m.redo.drop_last());
                    assert(history_views(self.undo_stack@) =~= m.undo.push(m.objects));
                    assert forall|j: int| 0 <= j < self.redo_stack@.len() implies #[trigger] distinct_ids(
                        views(self.redo_stack@[j]@),
                    ) by {
                        assert(self.redo_stack@[j] == old(self).redo_stack@[j]);
                    }
                    assert forall|j: int| 0 <= j < self.undo_stack@.len() implies #[trigger] distinct_ids(
                        views(self.undo_stack@[j]@),
                    ) by {
                        if j < old(self).undo_stack@.len() {
                            assert(self.undo_stack@[j] == old(self).undo_stack@[j]);
                        } else {
                            assert(views(self.undo_stack@[j]@) == cv);
                        }
                    }
                }
                self.rebuild_index();
                self.dirty = true;
            },
            None => {},
        }
    }

    /// Deletes every selected object, in selection order.
    pub fn delete_selected(&mut self)
        requires
            old(self).wf(),
        ensures
            final(self).wf(),
            MapEditor::same_frame(&*final(self), &*old(self)),
            final(self).model() == after_delete_all(
                old(self).model(),
                old(self).model().selected,
                old(self).undo_limit(),
            ),
    {
        let ids = self.state.selected.clone();
        proof {
            assert(ids@ =~= old(self).model().selected);
            assert(ids@.subrange(0, 0) =~= Seq::<MapObjectId>::empty());
        }
        let mut k: usize = 0;
        while k < ids.len()
            invariant
                self.wf(),
                MapEditor::same_frame(&*self, &*old(self)),
                ids@ == old(self).model().selected,
                k <= ids@.len(),
                self.model() == after_delete_all(
                    old(self).model(),
                    ids@.subrange(0, k as int),
                    old(self).undo_limit(),
                ),
            decreases ids@.len() - k,
        {
            self.delete_object(ids[k]);
            proof {
                let post = ids@.subrange(0, k + 1);
                assert(post.drop_last() =~= ids@.subrange(0, k as int));
            }
            k = k + 1;
        }
        proof {
            assert(ids@.subrange(0, k as int) =~= ids@);
        }
    }

    /// Moves the object `id` to `position` snapped to the grid by `snap`,
    /// unless it is missing or locked.
    pub fn move_object<F: Fn(Vec2Bits) -> Vec2Bits>(&mut self, id: MapObjectId, position: Vec2Bits, snap: F)
        requires
            old(self).wf(),
            forall|p: Vec2Bits| snap.requires((p,)),
        ensures
            final(self).wf(),
            MapEditor::same_frame(&*final(self), &*old(self)),
            exists|snapped: Vec2Bits|
                #[trigger] snap.ensures((position,), snapped) && final(self).model() == after_move(
                    old(self).model(),
                    id,
                    snapped,
                ),
    {
        let position = snap(position);
        let ghost s = views(self.objects@);
        match self.object_index.get(&id.0) {
            Some(i) => {
                let i = *i;
                proof {
                    assert(s[i as int].id == id);
                    assert(has_id(s, id));
                    let p = id_position(s, id);
                    assert(s[p].id == id);
                    assert(p == i);
                }
                if !self.objects[i].locked {
                    let mut o = self.objects[i].clone();
                    o.position = position;
                    self.objects.set(i, o);
                    self.dirty = true;
                    proof {
                        let ns = views(self.objects@);
                        assert(ns =~= s.update(i as int, PlacedObjectView { position, ..s[i as int] }));
                        assert forall|a: int, b: int|
                            0 <= a < ns.len() && 0 <= b < ns.len() && a != b implies ns[a].id != ns[b].id by {
                            assert(ns[a].id == s[a].id && ns[b].id == s[b].id);
                        }
                        assert forall|a: int| 0 <= a < ns.len() implies #[trigger] self.object_index@.contains_key(
                            ns[a].id.0,
                        ) && self.object_index@[ns[a].id.0] == a by {
                            assert(ns[a].id == s[a].id);
                            assert(self.object_index@.contains_key(s[a].id.0));
                        }
                        assert forall|k: u64| #[trigger] self.object_index@.contains_key(k) implies self.object_index@[k]
                            < ns.len() && ns[self.object_index@[k] as int].id.0 == k by {
                            assert(ns[self.object_index@[k] as int].id == s[self.object_index@[k] as int].id);
                        }
                    }
                }
            },
            None => {
                proof {
                    if has_id(s, id) {
                        let p = id_position(s, id);
                        assert(self.object_index@.contains_key(s[p].id.0));
                    }
                }
            },
        }
    }


    /// Moves every selected, unlocked object to a position related by `step`
    /// to the one before, once per occurrence of its identifier in the
    /// selection; everything else stays.
    fn reposition_selected<G: Fn(Vec2Bits) -> Vec2Bits>(
        &mut self,
        g: G,
        Ghost(step): Ghost<spec_fn(Vec2Bits, Vec2Bits) -> bool>,
    )
        requires
            old(self).wf(),
            forall|p: Vec2Bits| g.requires((p,)),
            forall|a: Vec2Bits, b: Vec2Bits| g.ensures((a,), b) ==> step(a, b),
        ensures
            final(self).wf(),
            MapEditor::same_frame(&*final(self), &*old(self)),
            moved_selection(
                old(self).model(),
                EditorModel { dirty: true, ..final(self).model() },
                step,
            ),
            final(self).model().dirty == old(self).model().dirty,
    {
        let ids = self.state.selected.clone();
        let ghost s = views(self.objects@);
        proof {
            assert(ids@ =~= old(self).state.selected@);
            assert(ids@.subrange(0, 0) =~= Seq::<MapObjectId>::empty());
        }
        let mut k: usize = 0;
        while k < ids.len()
            invariant
                forall|p: Vec2Bits| g.requires((p,)),
                forall|a: Vec2Bits, b: Vec2Bits| g.ensures((a,), b) ==> step(a, b),
                distinct_ids(s),
                indexes(self.object_index@, views(self.objects@)),
                distinct_ids(views(self.objects@)),
                forall|j: int|
                    0 <= j < self.undo_stack@.len() ==> #[trigger] distinct_ids(views(self.undo_stack@[j]@)),
                forall|j: int|
                    0 <= j < self.redo_stack@.len() ==> #[trigger] distinct_ids(views(self.redo_stack@[j]@)),
                self.palette.wf(),
                MapEditor::same_frame(&*self, &*old(self)),
                self.state.selected@ == old(self).state.selected@,
                ids@ == old(self).state.selected@,
                s == old(self).model().objects,
                self.undo_stack@ == old(self).undo_stack@,
                self.redo_stack@ == old(self).redo_stack@,
                self.dirty == old(self).dirty,
                k <= ids@.len(),
                views(self.objects@).len() == s.len(),
                forall|i: int|
                    0 <= i < s.len() ==> {
                        let n = #[trigger] views(self.objects@)[i];
                        &&& n == (PlacedObjectView { position: n.position, ..s[i] })
                        &&& s[i].locked ==> n.position == s[i].position
                        &&& !s[i].locked ==> moved_times(
                            step,
                            s[i].position,
                            n.position,
                            occurrences(ids@.subrange(0, k as int), s[i].id),
                        )
                    },
            decreases ids@.len() - k,
        {
            let id = ids[k];
            let ghost before = views(self.objects@);
            proof {
                let post = ids@.subrange(0, k + 1);
                assert(post.drop_last() =~= ids@.subrange(0, k as int));
                assert(post.last() == id);
            }
            match self.object_index.get(&id.0) {
                Some(i) => {
                    let i = *i;
                    if !self.objects[i].locked {
                        let mut o = self.objects[i].clone();
                        let ghost prev = o.position;
                        o.position = g(o.position);
                        let ghost ov = o@;
                        self.objects.set(i, o);
                        proof {
                            assert(views(self.objects@) =~= before.update(i as int, ov));
                            lemma_same_ids(self.object_index@, before, views(self.objects@));
                            let c = occurrences(ids@.subrange(0, k as int), s[i as int].id);
                            assert(moved_times(step, s[i as int].position, prev, c));
                            assert(step(prev, ov.position));
                            assert(moved_times(step, s[i as int].position, ov.position, c + 1));
                        }
                    }
                    proof {
                        assert(before[i as int].id == id);
                        assert forall|j: int| 0 <= j < s.len() && j != i implies before[j].id != id by {
                            assert(before[j].id == s[j].id);
                            assert(before[i as int].id == s[i as int].id);
                        }
                    }
                },
                None => {
                    proof {
                        assert forall|j: int| 0 <= j < s.len() implies before[j].id != id by {
                            assert(self.object_index@.contains_key(before[j].id.0));
                        }
                    }
                },
            }
            k = k + 1;
        }
        proof {
            assert(ids@.subrange(0, k as int) =~= ids@);
        }
    }

    /// Moves every selected, unlocked object to `new_position` of its
    /// position (the grid-snapped result of a displacement), after saving the
    /// objects for undo. An identifier selected twice is moved twice.
    pub fn move_selected<F: Fn(Vec2Bits) -> Vec2Bits>(&mut self, new_position: F)
        requires
            old(self).wf(),
            forall|p: Vec2Bits| new_position.requires((p,)),
        ensures
            final(self).wf(),
            MapEditor::same_frame(&*final(self), &*old(self)),
            moved_selection(
                snapshot_taken(old(self).model(), old(self).undo_limit()),
                final(self).model(),
                call_step(new_position),
            ),
    {
        self.save_undo();
        self.reposition_selected(new_position, Ghost(call_step(new_position)));
        self.dirty = true;
    }

    /// The map as serializable data: named after the map, with the objects in order.
    pub fn to_map_data(&self) -> (d: MapData)
        ensures
            d.name@ == self.frame().name,
            d.version == 1,
            d.width_bits is None && d.height_bits is None,
            d.properties.wf(),
            d.properties.view() == Map::<Seq<char>, String>::empty(),
            d.objects@.len() == self.model().objects.len(),
            forall|i: int| 0 <= i < d.objects@.len() ==> serializes(#[trigger] d.objects@[i], self.model().objects[i]),
    {
        let mut data = MapData::new(self.map_name.as_str());
        data.objects = MapData::from_placed_objects(self.objects.as_slice());
        data
    }

    /// Loads map data: clears the editor (saving the objects for undo), takes
    /// the map's name, and places its objects in order, the `i`-th with
    /// identifier `ids[i]`. The result counts as saved.
    pub fn from_map_data(&mut self, data: &MapData, ids: &[MapObjectId])
        requires
            old(self).wf(),
            ids@.len() == data.objects@.len(),
            forall|i: int, j: int| 0 <= i < j < ids@.len() ==> ids@[i] != ids@[j],
            forall|i: int| 0 <= i < data.objects@.len() ==> (#[trigger] data.objects@[i]).properties.wf(),
        ensures
            final(self).wf(),
            final(self).frame() == (EditorFrame { hovered: None, name: data.name@, ..old(self).frame() }),
            final(self).palette_of() == old(self).palette_of(),
            final(self).model().selected == Seq::<MapObjectId>::empty(),
            final(self).model().undo == snapshot_taken(old(self).model(), old(self).undo_limit()).undo,
            final(self).model().redo == Seq::<Seq<PlacedObjectView>>::empty(),
            !final(self).model().dirty,
            final(self).model().objects.len() == data.objects@.len(),
            forall|i: int|
                0 <= i < data.objects@.len() ==> loads_as(data.objects@[i], ids@[i], #[trigger] final(self).model().objects[i]),
    {
        self.clear();
        self.map_name = data.name.clone();
        let loaded = data.to_placed_objects(ids);
        let mut k: usize = 0;
        while k < loaded.len()
            invariant
                k <= loaded@.len(),
                loaded@.len() == ids@.len(),
                forall|i: int, j: int| 0 <= i < j < ids@.len() ==> ids@[i] != ids@[j],
                forall|i: int| 0 <= i < loaded@.len() ==> (#[trigger] loaded@[i])@.id == ids@[i],
                views(self.objects@) == views(loaded@).subrange(0, k as int),
                indexes(self.object_index@, views(self.objects@)),
                forall|j: int|
                    0 <= j < self.undo_stack@.len() ==> #[trigger] distinct_ids(views(self.undo_stack@[j]@)),
                forall|j: int|
                    0 <= j < self.redo_stack@.len() ==> #[trigger] distinct_ids(views(self.redo_stack@[j]@)),
                self.palette.wf(),
                self.palette == old(self).palette,
                self.frame() == (EditorFrame { hovered: None, name: data.name@, ..old(self).frame() }),
                self.state.selected@ == Seq::<MapObjectId>::empty(),
                history_views(self.undo_stack@) == snapshot_taken(old(self).model(), old(self).undo_limit()).undo,
                history_views(self.redo_stack@) == Seq::<Seq<PlacedObjectView>>::empty(),
            decreases loaded@.len() - k,
        {
            let o = loaded[k].clone();
            let ghost s = views(self.objects@);
            let oid = o.id;
            let index = self.objects.len();
            let ghost ov = o@;
            self.objects.push(o);
            self.object_index.insert(oid.0, index);
            proof {
                let ns = views(self.objects@);
                assert(ov == loaded@[k as int]@);
                assert(ns =~= s.push(ov));
                assert(ns =~= views(loaded@).subrange(0, k + 1));
                assert forall|i: int| 0 <= i < ns.len() implies #[trigger] self.object_index@.contains_key(
                    ns[i].id.0,
                ) && self.object_index@[ns[i].id.0] == i by {
                    if i < s.len() {
                        assert(s[i].id == ids@[i]);
                        assert(ids@[i] != ids@[k as int]);
                    }
                }
                assert forall|q: u64| #[trigger] self.object_index@.contains_key(q) implies self.object_index@[q]
                    < ns.len() && ns[self.object_index@[q] as int].id.0 == q by {
                }
            }
            k = k + 1;
        }
        self.dirty = false;
        proof {
            let ns = views(self.objects@);
            assert(views(loaded@).subrange(0, k as int) =~= views(loaded@));
            assert forall|i: int, j: int|
                #![trigger ns[i].id, ns[j].id]
                0 <= i < ns.len() && 0 <= j < ns.len() && i != j implies ns[i].id != ns[j].id by {
                assert(ns[i].id == ids@[i] && ns[j].id == ids@[j]);
            }
        }
    }


    /// Sets the grid cell size.
    pub(crate) fn set_grid_cell_size(&mut self, cell_size: Vec2Bits)
        requires
            old(self).wf(),
        ensures
            final(self).wf(),
            final(self).model() == old(self).model(),
            final(self).palette_of() == old(self).palette_of(),
            final(self).frame() == (EditorFrame {
                config: EditorConfig {
                    grid: GridConfig { cell_size, ..old(self).frame().config.grid },
                    ..old(self).frame().config
                },
                ..old(self).frame()
            }),
    {
        self.config.grid.cell_size = cell_size;
    }

    /// Turns grid snapping on or off.
    pub(crate) fn set_grid_snap(&mut self, enabled: bool)
        requires
            old(self).wf(),
        ensures
            final(self).wf(),
            final(self).model() == old(self).model(),
            final(self).palette_of() == old(self).palette_of(),
            final(self).frame() == (EditorFrame {
                config: EditorConfig { grid: GridConfig { enabled, ..old(self).frame().config.grid }, ..old(self).frame().config },
                ..old(self).frame()
            }),
    {
        self.config.grid.enabled = enabled;
    }

    /// Whether there are unsaved changes.
    pub fn is_dirty(&self) -> (b: bool)
        ensures
            b == self.model().dirty,
    {
        self.dirty
    }

    /// Marks the map as saved.
    pub fn mark_saved(&mut self)
        requires
            old(self).wf(),
        ensures
            final(self).wf(),
            MapEditor::same_frame(&*final(self), &*old(self)),
            final(self).model() == (EditorModel { dirty: false, ..old(self).model() }),
    {
        self.dirty = false;
    }

    /// Turns the editor on or off.
    pub fn toggle(&mut self)
        requires
            old(self).wf(),
        ensures
            final(self).wf(),
            final(self).model() == old(self).model(),
            final(self).palette_of() == old(self).palette_of(),
            final(self).frame() == (EditorFrame {
                config: EditorConfig { enabled: !old(self).frame().config.enabled, ..old(self).frame().config },
                ..old(self).frame()
            }),
    {
        self.config.enabled = !self.config.enabled;
    }

    /// Turns the editor on.
    pub fn enable(&mut self)
        requires
            old(self).wf(),
        ensures
            final(self).wf(),
            final(self).model() == old(self).model(),
            final(self).palette_of() == old(self).palette_of(),
            final(self).frame() == (EditorFrame {
                config: EditorConfig { enabled: true, ..old(self).frame().config },
                ..old(self).frame()
            }),
    {
        self.config.enabled = true;
    }

    /// Turns the editor off.
    pub fn disable(&mut self)
        requires
            old(self).wf(),
        ensures
            final(self).wf(),
            final(self).model() == old(self).model(),
            final(self).palette_of() == old(self).palette_of(),
            final(self).frame() == (EditorFrame {
                config: EditorConfig { enabled: false, ..old(self).frame().config },
                ..old(self).frame()
            }),
    {
        self.config.enabled = false;
    }

    /// Whether the editor is on.
    pub fn is_enabled(&self) -> (b: bool)
        ensures
            b == self.frame().config.enabled,
    {
        self.config.enabled
    }

    /// Registers a placeable object type in the palette.
    pub fn register_object(&mut self, object: MapObject)
        requires
            old(self).wf(),
        ensures
            final(self).wf(),
            final(self).model() == old(self).model(),
            final(self).frame() == old(self).frame(),
            registered(old(self).palette_of(), final(self).palette_of(), object),
    {
        self.palette.register(object);
    }

    /// Registers a solid rectangle object type of the given width and height.
    pub fn register_rect(&mut self, name: &str, width_bits: u32, height_bits: u32, color: ColorBits)
        requires
            old(self).wf(),
        ensures
            final(self).wf(),
            final(self).model() == old(self).model(),
            final(self).frame() == old(self).frame(),
            exists|o: MapObject|
                crate::map_object::fresh_object(
                    o,
                    name@,
                    "Default"@,
                    Vec2Bits { x_bits: width_bits, y_bits: height_bits },
                    true,
                ) && o.visual == (crate::map_object::ObjectVisual::Rect { color }) && o.collision == Some(
                    crate::map_object::CollisionShape::Rect { width_bits, height_bits },
                ) && registered(old(self).palette_of(), final(self).palette_of(), o),
    {
        let o = MapObject::rect(name, width_bits, height_bits, color);
        let ghost og = o;
        self.palette.register(o);
        proof {
            assert(crate::map_object::fresh_object(
                og,
                name@,
                "Default"@,
                Vec2Bits { x_bits: width_bits, y_bits: height_bits },
                true,
            ) && og.visual == (crate::map_object::ObjectVisual::Rect { color }) && og.collision == Some(
                crate::map_object::CollisionShape::Rect { width_bits, height_bits },
            ) && registered(old(self).palette_of(), self.palette_of(), og));
        }
    }

    /// Registers a textured object type.
    pub fn register_texture(&mut self, name: &str, texture_name: &str, size: Vec2Bits)
        requires
            old(self).wf(),
        ensures
            final(self).wf(),
            final(self).model() == old(self).model(),
            final(self).frame() == old(self).frame(),
            exists|o: MapObject|
                crate::map_object::fresh_object(o, name@, "Default"@, size, true)
                    && (o.visual matches crate::map_object::ObjectVisual::Texture { texture_name: t, tint }
                    && t@ == texture_name@ && tint == crate::bits::white()) && o.collision is None
                    && registered(old(self).palette_of(), final(self).palette_of(), o),
    {
        let o = MapObject::texture(name, texture_name, size);
        let ghost og = o;
        self.palette.register(o);
        proof {
            assert(crate::map_object::fresh_object(og, name@, "Default"@, size, true));
        }
    }

    /// Registers a textured object type in the given category.
    pub fn register_texture_with_category(
        &mut self,
        name: &str,
        texture_name: &str,
        size: Vec2Bits,
        category: &str,
    )
        requires
            old(self).wf(),
        ensures
            final(self).wf(),
            final(self).model() == old(self).model(),
            final(self).frame() == old(self).frame(),
            exists|o: MapObject|
                crate::map_object::fresh_object(o, name@, category@, size, true)
                    && (o.visual matches crate::map_object::ObjectVisual::Texture { texture_name: t, tint }
                    && t@ == texture_name@ && tint == crate::bits::white()) && o.collision is None
                    && registered(old(self).palette_of(), final(self).palette_of(), o),
    {
        let o = MapObject::texture(name, texture_name, size).with_category(category);
        let ghost og = o;
        self.palette.register(o);
        proof {
            assert(crate::map_object::fresh_object(og, name@, category@, size, true));
        }
    }
}


/// The shortcut that the keys of `input` ask for.
fn shortcut(input: &InputState) -> (s: Shortcut)
    ensures
        s == shortcut_of(input.keys_down(), input.keys_just_pressed()),
{
    let command = input.is_key_down(KEY_CONTROL_LEFT) || input.is_key_down(KEY_CONTROL_RIGHT)
        || input.is_key_down(KEY_SUPER_LEFT) || input.is_key_down(KEY_SUPER_RIGHT);
    if input.is_key_just_pressed(KEY_DELETE) || input.is_key_just_pressed(KEY_BACKSPACE) {
        Shortcut::DeleteSelected
    } else if command && input.is_key_just_pressed(KEY_Z) {
        if input.is_key_down(KEY_SHIFT_LEFT) {
            Shortcut::Redo
        } else {
            Shortcut::Undo
        }
    } else if command && input.is_key_just_pressed(KEY_A) {
        Shortcut::SelectAll
    } else if input.is_key_just_pressed(KEY_V) {
        Shortcut::UseTool(EditorTool::Select)
    } else if input.is_key_just_pressed(KEY_P) {
        Shortcut::UseTool(EditorTool::Place)
    } else if input.is_key_just_pressed(KEY_E) {
        Shortcut::UseTool(EditorTool::Erase)
    } else if input.is_key_just_pressed(KEY_H) {
        Shortcut::UseTool(EditorTool::Pan)
    } else if input.is_key_just_pressed(KEY_B) {
        Shortcut::UseTool(EditorTool::Paint)
    } else if input.is_key_just_pressed(KEY_G) {
        Shortcut::ToggleGrid
    } else {
        Shortcut::Nothing
    }
}

impl MapEditor {
    /// Places the palette's selected asset, if any, at the snapped mouse position.
    fn place_selected<F: Fn(Vec2Bits) -> Vec2Bits>(&mut self, snap: F, new_id: MapObjectId)
        requires
            old(self).wf(),
            !has_id(old(self).model().objects, new_id),
            forall|p: Vec2Bits| snap.requires((p,)),
        ensures
            final(self).wf(),
            MapEditor::same_frame(&*final(self), &*old(self)),
            placed_selected(
                old(self).model(),
                old(self).palette_of(),
                old(self).frame().mouse_world_pos,
                snap,
                new_id,
                old(self).undo_limit(),
                final(self).model(),
            ),
    {
        let selected: Option<String> = match self.palette.selected() {
            Some(name) => Some(name.to_owned()),
            None => None,
        };
        match selected {
            Some(name) => {
                self.place_object(name.as_str(), self.state.mouse_world_pos, snap, new_id);
            },
            None => {},
        }
    }

    /// Handles one frame of input and returns whether it was consumed.
    ///
    /// A disabled editor, or one whose panel has focus, ignores input.
    /// Otherwise the mouse position becomes `mouse_world`, and a keyboard
    /// shortcut (see [`shortcut_of`]) is applied and consumes the input; with
    /// none, the hovered object becomes `hovered` and the current tool handles
    /// the left button (see [`pointer_handled`]).
    ///
    /// The floating-point parts come from the caller: `mouse_world` (the
    /// cursor in world coordinates), `hovered` (the top-most object under it),
    /// `in_rect` (the objects overlapping the selection rectangle), `paint_due`
    /// (whether the paint tool is far enough from its last spot), `snap` (grid
    /// snapping), and `plus` and `minus` (vector sum and difference). A placed
    /// object gets the identifier `new_id`.
    pub fn handle_input<F, A, S>(
        &mut self,
        input: &InputState,
        mouse_world: Vec2Bits,
        hovered: Option<MapObjectId>,
        in_rect: &[MapObjectId],
        paint_due: bool,
        snap: F,
        plus: A,
        minus: S,
        new_id: MapObjectId,
    ) -> (consumed: bool)
        where
            F: Fn(Vec2Bits) -> Vec2Bits,
            A: Fn(Vec2Bits, Vec2Bits) -> Vec2Bits,
            S: Fn(Vec2Bits, Vec2Bits) -> Vec2Bits,
        requires
            old(self).wf(),
            !has_id(old(self).model().objects, new_id),
            forall|p: Vec2Bits| snap.requires((p,)),
            forall|a: Vec2Bits, b: Vec2Bits| plus.requires((a, b)),
            forall|a: Vec2Bits, b: Vec2Bits| minus.requires((a, b)),
        ensures
            final(self).wf(),
            input_handled(
                *old(self),
                *final(self),
                input,
                mouse_world,
                hovered,
                in_rect@,
                paint_due,
                snap,
                plus,
                minus,
                new_id,
                consumed,
            ),
    {
        if !self.config.enabled || self.state.panel_focused {
            return false;
        }
        self.state.mouse_world_pos = mouse_world;
        match shortcut(input) {
            Shortcut::DeleteSelected => {
                self.delete_selected();
                return true;
            },
            Shortcut::Redo => {
                self.redo();
                return true;
            },
            Shortcut::Undo => {
                self.undo();
                return true;
            },
            Shortcut::SelectAll => {
                self.select_all();
                return true;
            },
            Shortcut::UseTool(t) => {
                self.tool.tool = t;
                return true;
            },
            Shortcut::ToggleGrid => {
                self.config.grid.enabled = !self.config.grid.enabled;
                return true;
            },
            Shortcut::Nothing => {},
        }
        self.state.hovered = hovered;
        match self.tool.tool {
            EditorTool::Select => self.select_input(input, in_rect, snap, plus, minus),
            EditorTool::Place => {
                if input.is_mouse_just_pressed(MOUSE_LEFT) {
                    self.place_selected(snap, new_id);
                    true
                } else {
                    false
                }
            },
            EditorTool::Erase => {
                if input.is_mouse_down(MOUSE_LEFT) {
                    match self.state.hovered {
                        Some(id) => {
                            self.delete_object(id);
                        },
                        None => {},
                    }
                    true
                } else {
                    false
                }
            },
            EditorTool::Paint => self.paint_input(input, paint_due, snap, new_id),
            EditorTool::Pan | EditorTool::Measure => false,
        }
    }

    /// Drags the selection: each selected, unlocked object is shifted by the
    /// mouse plus `offset`, less the position of the dragged object `did`.
    fn drag_selection<F: Fn(Vec2Bits) -> Vec2Bits, A: Fn(Vec2Bits, Vec2Bits) -> Vec2Bits, S: Fn(Vec2Bits, Vec2Bits) -> Vec2Bits>(
        &mut self,
        offset: Vec2Bits,
        did: MapObjectId,
        snap: F,
        plus: A,
        minus: S,
    )
        requires
            old(self).wf(),
            forall|p: Vec2Bits| snap.requires((p,)),
            forall|a: Vec2Bits, b: Vec2Bits| plus.requires((a, b)),
            forall|a: Vec2Bits, b: Vec2Bits| minus.requires((a, b)),
        ensures
            final(self).wf(),
            MapEditor::same_frame(&*final(self), &*old(self)),
            dragged(
                old(self).model(),
                final(self).model(),
                old(self).frame().mouse_world_pos,
                offset,
                did,
                snap,
                plus,
                minus,
            ),
    {
        let ghost m = self.model();
        let target = plus(self.state.mouse_world_pos, offset);
        let delta = match self.get_object(did) {
            Some(o) => minus(target, o.position),
            None => Vec2Bits::zero(),
        };
        assert(drag_delta(m.objects, self.state.mouse_world_pos, offset, did, plus, minus, delta));
        let ghost step = shift_step(plus, snap, delta);
        let plus_ref = &plus;
        let snap_ref = &snap;
        let shift = move |p: Vec2Bits| -> (r: Vec2Bits)
            requires
                forall|a: Vec2Bits, b: Vec2Bits| plus_ref.requires((a, b)),
                forall|q: Vec2Bits| snap_ref.requires((q,)),
            ensures
                exists|t: Vec2Bits| #[trigger] plus_ref.ensures((p, delta), t) && snap_ref.ensures((t,), r),
            {
                let t = plus_ref(p, delta);
                snap_ref(t)
            };
        self.reposition_selected(shift, Ghost(step));
        self.dirty = true;
    }

    /// The select tool's handling of the left button (see [`select_handled`]).
    fn select_input<F: Fn(Vec2Bits) -> Vec2Bits, A: Fn(Vec2Bits, Vec2Bits) -> Vec2Bits, S: Fn(Vec2Bits, Vec2Bits) -> Vec2Bits>(
        &mut self,
        input: &InputState,
        in_rect: &[MapObjectId],
        snap: F,
        plus: A,
        minus: S,
    ) -> (consumed: bool)
        requires
            old(self).wf(),
            forall|p: Vec2Bits| snap.requires((p,)),
            forall|a: Vec2Bits, b: Vec2Bits| plus.requires((a, b)),
            forall|a: Vec2Bits, b: Vec2Bits| minus.requires((a, b)),
        ensures
            final(self).wf(),
            final(self).palette_of() == old(self).palette_of(),
            select_handled(
                old(self).model(),
                old(self).frame(),
                input,
                in_rect@,
                snap,
                plus,
                minus,
                final(self).model(),
                final(self).frame(),
                consumed,
            ),
    {
        let mouse = self.state.mouse_world_pos;
        if input.is_mouse_just_pressed(MOUSE_LEFT) {
            match self.state.hovered {
                Some(id) => {
                    if !input.is_key_down(KEY_SHIFT_LEFT) {
                        if !holds_id(&self.state.selected, id) {
                            self.clear_selection();
                        }
                    }
                    self.toggle_select(id);
                    let pos = match self.get_object(id) {
                        Some(o) => Some(o.position),
                        None => None,
                    };
                    match pos {
                        Some(p) => {
                            let off = minus(p, mouse);
                            self.tool.drag_offset = Some(off);
                            self.state.dragging = Some(id);
                        },
                        None => {},
                    }
                },
                None => {
                    self.clear_selection();
                    self.tool.begin(mouse);
                },
            }
            return true;
        }
        if input.is_mouse_down(MOUSE_LEFT) && self.tool.active {
            self.tool.update(mouse);
            return true;
        }
        if input.is_mouse_down(MOUSE_LEFT) {
            match (self.tool.drag_offset, self.state.dragging) {
                (Some(off), Some(did)) => {
                    self.drag_selection(off, did, snap, plus, minus);
                },
                _ => {},
            }
            return true;
        }
        if input.is_mouse_just_released(MOUSE_LEFT) {
            if self.tool.active {
                if self.tool.start_pos.is_some() && self.tool.current_pos.is_some() {
                    self.select_each(in_rect);
                }
                self.tool.end();
            } else {
                self.tool.drag_offset = None;
                self.state.dragging = None;
            }
            return true;
        }
        false
    }

    /// The paint tool's handling of the left button (see [`paint_handled`]).
    fn paint_input<F: Fn(Vec2Bits) -> Vec2Bits>(
        &mut self,
        input: &InputState,
        paint_due: bool,
        snap: F,
        new_id: MapObjectId,
    ) -> (consumed: bool)
        requires
            old(self).wf(),
            !has_id(old(self).model().objects, new_id),
            forall|p: Vec2Bits| snap.requires((p,)),
        ensures
            final(self).wf(),
            final(self).palette_of() == old(self).palette_of(),
            paint_handled(
                old(self).model(),
                old(self).frame(),
                old(self).palette_of(),
                input,
                paint_due,
                snap,
                new_id,
                old(self).undo_limit(),
                final(self).model(),
                final(self).frame(),
                consumed,
            ),
    {
        let mouse = self.state.mouse_world_pos;
        if input.is_mouse_just_pressed(MOUSE_LEFT) {
            self.tool.begin(mouse);
        }
        if input.is_mouse_down(MOUSE_LEFT) && paint_due {
            let painting = self.palette.selected().is_some();
            self.place_selected(snap, new_id);
            if painting {
                self.tool.record_paint(mouse);
            }
            return true;
        }
        if input.is_mouse_just_released(MOUSE_LEFT) {
            self.tool.end();
        }
        false
    }

    /// Selects the identifiers in order.
    fn select_each(&mut self, ids: &[MapObjectId])
        requires
            old(self).wf(),
        ensures
            final(self).wf(),
            MapEditor::same_frame(&*final(self), &*old(self)),
            final(self).model() == after_select_each(old(self).model(), ids@),
    {
        proof {
            assert(ids@.subrange(0, 0) =~= Seq::<MapObjectId>::empty());
        }
        let mut k: usize = 0;
        while k < ids.len()
            invariant
                self.wf(),
                MapEditor::same_frame(&*self, &*old(self)),
                k <= ids@.len(),
                self.model() == after_select_each(old(self).model(), ids@.subrange(0, k as int)),
            decreases ids@.len() - k,
        {
            self.select(ids[k]);
            proof {
                let post = ids@.subrange(0, k + 1);
                assert(post.drop_last() =~= ids@.subrange(0, k as int));
            }
            k = k + 1;
        }
        proof {
            assert(ids@.subrange(0, k as int) =~= ids@);
        }
    }
}

/// Undoing a placement gives back the objects from before it (when the
/// history keeps at least one step).
pub proof fn lemma_undo_place(m: EditorModel, o: PlacedObjectView, max: usize)
    requires
        max >= 1,
    ensures
        after_undo(after_place(m, o, max)).objects == m.objects,
        after_undo(after_place(m, o, max)).redo == seq![m.objects.push(o)],
{
    let u = m.undo.push(m.objects);
    if u.len() > max {
        assert(u.subrange(1, u.len() as int).last() == m.objects);
    }
}

/// Undoing a deletion gives back the objects from before it (when the
/// history keeps at least one step).
pub proof fn lemma_undo_delete(m: EditorModel, id: MapObjectId, max: usize)
    requires
        max >= 1,
        has_id(m.objects, id),
    ensures
        after_undo(after_delete(m, id, max)).objects == m.objects,
{
    let u = m.undo.push(m.objects);
    if u.len() > max {
        assert(u.subrange(1, u.len() as int).last() == m.objects);
    }
}

/// Redo after undo gives back the objects and both histories from before the undo.
pub proof fn lemma_redo_undo(m: EditorModel)
    requires
        m.undo.len() > 0,
    ensures
        after_redo(after_undo(m)).objects == m.objects,
        after_redo(after_undo(m)).undo == m.undo,
        after_redo(after_undo(m)).redo == m.redo,
{
    assert(m.redo.push(m.objects).drop_last() =~= m.redo);
    assert(m.undo.drop_last().push(m.undo.last()) =~= m.undo);
}

/// Undo after redo gives back the objects and both histories from before the redo.
pub proof fn lemma_undo_redo(m: EditorModel)
    requires
        m.redo.len() > 0,
    ensures
        after_undo(after_redo(m)).objects == m.objects,
        after_undo(after_redo(m)).undo == m.undo,
        after_undo(after_redo(m)).redo == m.redo,
{
    assert(m.undo.push(m.objects).drop_last() =~= m.undo);
    assert(m.redo.drop_last().push(m.redo.last()) =~= m.redo);
}

/// Deleting an object just placed with a new identifier gives back the
/// objects from before the placement.
pub proof fn lemma_delete_placed(m: EditorModel, o: PlacedObjectView, max: usize)
    requires
        !has_id(m.objects, o.id),
    ensures
        after_delete(after_place(m, o, max), o.id, max).objects == m.objects,
{
    let s = m.objects.push(o);
    assert(s[m.objects.len() as int].id == o.id);
    assert(has_id(s, o.id));
    let p = id_position(s, o.id);
    assert(s[p].id == o.id);
    if p < m.objects.len() {
        assert(m.objects[p].id == o.id);
    }
    assert(swap_removed(s, p) =~= m.objects);
}

/// Deleting removes exactly the object of that identifier.
pub proof fn lemma_delete_removes_exactly(m: EditorModel, id: MapObjectId, x: MapObjectId, max: usize)
    requires
        distinct_ids(m.objects),
    ensures
        has_id(after_delete(m, id, max).objects, x) <==> (has_id(m.objects, x) && x != id),
        after_delete(m, id, max).objects.len() == if has_id(m.objects, id) {
            m.objects.len() - 1
        } else {
            m.objects.len() as int
        },
{
    if has_id(m.objects, id) {
        let s = m.objects;
        let p = id_position(s, id);
        assert(s[p].id == id);
        let n = s.len();
        let r = swap_removed(s, p);
        if has_id(r, x) {
            let q = choose|q: int| 0 <= q < r.len() && #[trigger] r[q].id == x;
            let oq = if q == p { n - 1 } else { q };
            assert(r[q] == s[oq]);
            assert(s[oq].id == x);
            assert(oq != p);
        }
        if has_id(s, x) && x != id {
            let q = choose|q: int| 0 <= q < s.len() && #[trigger] s[q].id == x;
            assert(q != p);
            if q == n - 1 {
                assert(r[p] == s[q]);
            } else {
                assert(r[q] == s[q]);
            }
        }
    }
}

/// Selecting twice is selecting once.
pub proof fn lemma_select_idempotent(m: EditorModel, id: MapObjectId)
    ensures
        after_select(after_select(m, id), id) == after_select(m, id),
{
    if !m.selected.contains(id) {
        assert(m.selected.push(id)[m.selected.len() as int] == id);
    }
}

/// Toggling a selection twice gives back the selection, when the identifier
/// was not selected or was selected once.
pub proof fn lemma_toggle_twice(m: EditorModel, id: MapObjectId)
    requires
        !m.selected.contains(id),
    ensures
        after_toggle(after_toggle(m, id), id).selected == m.selected,
{
    let s = m.selected.push(id);
    assert(s[m.selected.len() as int] == id);
    lemma_without_absent(m.selected, id);
    lemma_without_push(m.selected, id);
}

/// Removing an identifier that is absent changes nothing.
pub proof fn lemma_without_absent(sel: Seq<MapObjectId>, id: MapObjectId)
    requires
        !sel.contains(id),
    ensures
        without(sel, id) == sel,
    decreases sel.len(),
{
    reveal(Seq::filter);
    if sel.len() > 0 {
        assert(!sel.drop_last().contains(id)) by {
            if sel.drop_last().contains(id) {
                let i = sel.drop_last().index_of(id);
                assert(sel[i] == id);
            }
        }
        lemma_without_absent(sel.drop_last(), id);
        assert(sel.last() != id) by {
            assert(sel[sel.len() - 1] == sel.last());
        }
        assert(sel.drop_last().push(sel.last()) =~= sel);
    }
}

/// Removing an identifier after adding it is removing it.
pub proof fn lemma_without_push(sel: Seq<MapObjectId>, id: MapObjectId)
    ensures
        without(sel.push(id), id) == without(sel, id),
{
    reveal(Seq::filter);
    assert(sel.push(id).drop_last() =~= sel);
}

/// Removing an identifier leaves no occurrence of it.
pub proof fn lemma_without_gone(sel: Seq<MapObjectId>, id: MapObjectId)
    ensures
        !without(sel, id).contains(id),
{
    let w = without(sel, id);
    sel.filter_lemma(other_than(id));
    if w.contains(id) {
        let i = w.index_of(id);
        assert(other_than(id)(w[i]));
    }
}

/// The undo history never holds more than its limit, once it is within it.
pub proof fn lemma_history_bounded(m: EditorModel, max: usize)
    requires
        m.undo.len() <= max,
    ensures
        snapshot_taken(m, max).undo.len() <= max,
{
}

} // verus!
