//! Editor tools, tool state and grid settings.
use crate::bits::{ColorBits, Vec2Bits};
use vstd::prelude::*;

verus! {

/// Available editor tools.
#[derive(Debug, Clone, Copy, PartialEq, Eq, Default, Structural)]
pub enum EditorTool {
    /// Select and move objects.
    #[default]
    Select,
    /// Place new objects from the palette.
    Place,
    /// Erase objects.
    Erase,
    /// Pan the camera.
    Pan,
    /// Measure distances.
    Measure,
    /// Paint with the selected object (continuous placement).
    Paint,
}

/// The tools in the order the toolbar shows them.
pub open spec fn tool_order() -> Seq<EditorTool> {
    seq![
        EditorTool::Select,
        EditorTool::Place,
        EditorTool::Erase,
        EditorTool::Pan,
        EditorTool::Paint,
        EditorTool::Measure,
    ]
}

/// The display name of a tool.
pub open spec fn tool_name(t: EditorTool) -> Seq<char> {
    match t {
        EditorTool::Select => "Select"@,
        EditorTool::Place => "Place"@,
        EditorTool::Erase => "Erase"@,
        EditorTool::Pan => "Pan"@,
        EditorTool::Measure => "Measure"@,
        EditorTool::Paint => "Paint"@,
    }
}

/// The icon of a tool.
pub open spec fn tool_icon(t: EditorTool) -> Seq<char> {
    match t {
        EditorTool::Select => "⬚"@,
        EditorTool::Place => "➕"@,
        EditorTool::Erase => "🗑"@,
        EditorTool::Pan => "✋"@,
        EditorTool::Measure => "📏"@,
        EditorTool::Paint => "🖌"@,
    }
}

/// The keyboard shortcut of a tool.
pub open spec fn tool_shortcut(t: EditorTool) -> char {
    match t {
        EditorTool::Select => 'V',
        EditorTool::Place => 'P',
        EditorTool::Erase => 'E',
        EditorTool::Pan => 'H',
        EditorTool::Measure => 'M',
        EditorTool::Paint => 'B',
    }
}

impl EditorTool {
    /// Returns all tools, in toolbar order.
    pub fn all() -> (tools: &'static [EditorTool])
        ensures
            tools@ == tool_order(),
    {
        let tools: &'static [EditorTool] = &[
            EditorTool::Select,
            EditorTool::Place,
            EditorTool::Erase,
            EditorTool::Pan,
            EditorTool::Paint,
            EditorTool::Measure,
        ];
        tools
    }

    /// The display name for this tool.
    pub fn name(&self) -> (s: &'static str)
        ensures
            s@ == tool_name(*self),
    {
        match self {
            EditorTool::Select => "Select",
            EditorTool::Place => "Place",
            EditorTool::Erase => "Erase",
            EditorTool::Pan => "Pan",
            EditorTool::Measure => "Measure",
            EditorTool::Paint => "Paint",
        }
    }

    /// The icon for this tool.
    pub fn icon(&self) -> (s: &'static str)
        ensures
            s@ == tool_icon(*self),
    {
        match self {
            EditorTool::Select => "⬚",
            EditorTool::Place => "➕",
            EditorTool::Erase => "🗑",
            EditorTool::Pan => "✋",
            EditorTool::Measure => "📏",
            EditorTool::Paint => "🖌",
        }
    }

    /// The keyboard shortcut for this tool.
    pub fn shortcut(&self) -> (c: Option<char>)
        ensures
            c == Some(tool_shortcut(*self)),
    {
        match self {
            EditorTool::Select => Some('V'),
            EditorTool::Place => Some('P'),
            EditorTool::Erase => Some('E'),
            EditorTool::Pan => Some('H'),
            EditorTool::Measure => Some('M'),
            EditorTool::Paint => Some('B'),
        }
    }
}

/// Every tool is listed once, and no two tools share a shortcut.
pub proof fn lemma_tools_listed_once(t: EditorTool, u: EditorTool)
    ensures
        tool_order().contains(t),
        forall|i: int, j: int| 0 <= i < j < 6 ==> tool_order()[i] != tool_order()[j],
        t != u ==> tool_shortcut(t) != tool_shortcut(u),
{
    match t {
        EditorTool::Select => assert(tool_order()[0] == t),
        EditorTool::Place => assert(tool_order()[1] == t),
        EditorTool::Erase => assert(tool_order()[2] == t),
        EditorTool::Pan => assert(tool_order()[3] == t),
        EditorTool::Paint => assert(tool_order()[4] == t),
        EditorTool::Measure => assert(tool_order()[5] == t),
    }
}

/// The bits of the `f32` value `32.0`, the default paint spacing and grid cell size.
pub const THIRTY_TWO_BITS: u32 = 0x4200_0000;

/// State of the current tool operation; positions are `f32` bits.
#[derive(Debug, Clone, Copy, PartialEq, Eq, Structural)]
pub struct ToolState {
    /// The active tool.
    pub tool: EditorTool,
    /// Whether the tool is in use (mouse down).
    pub active: bool,
    /// Start position of the current operation.
    pub start_pos: Option<Vec2Bits>,
    /// Current position during the operation.
    pub current_pos: Option<Vec2Bits>,
    /// Offset of the dragged objects (select tool).
    pub drag_offset: Option<Vec2Bits>,
    /// Last painted position (paint tool).
    pub last_paint_pos: Option<Vec2Bits>,
    /// Minimum distance between painted objects, as `f32` bits.
    pub paint_spacing_bits: u32,
}

impl ToolState {
    /// The tool state that [`ToolState::new`] makes: select tool, idle,
    /// paint spacing 32.
    pub open spec fn new_spec() -> ToolState {
        ToolState {
            tool: EditorTool::Select,
            active: false,
            start_pos: None,
            current_pos: None,
            drag_offset: None,
            last_paint_pos: None,
            paint_spacing_bits: THIRTY_TWO_BITS,
        }
    }

    /// A new tool state: select tool, idle, paint spacing 32.
    pub fn new() -> (t: ToolState)
        ensures
            t == ToolState::new_spec(),
    {
        ToolState {
            tool: EditorTool::Select,
            active: false,
            start_pos: None,
            current_pos: None,
            drag_offset: None,
            last_paint_pos: None,
            paint_spacing_bits: THIRTY_TWO_BITS,
        }
    }

    /// The state after beginning an operation at `pos`.
    pub open spec fn begun_at(self, pos: Vec2Bits) -> ToolState {
        ToolState { active: true, start_pos: Some(pos), current_pos: Some(pos), ..self }
    }

    /// The state after moving the current position to `pos`.
    pub open spec fn moved_to(self, pos: Vec2Bits) -> ToolState {
        ToolState { current_pos: Some(pos), ..self }
    }

    /// The state after ending the operation.
    pub open spec fn ended(self) -> ToolState {
        ToolState {
            active: false,
            start_pos: None,
            current_pos: None,
            drag_offset: None,
            last_paint_pos: None,
            ..self
        }
    }

    /// The state after painting at `pos`.
    pub open spec fn painted_at(self, pos: Vec2Bits) -> ToolState {
        ToolState { last_paint_pos: Some(pos), ..self }
    }

    /// Begins an operation at `world_pos`.
    pub fn begin(&mut self, world_pos: Vec2Bits)
        ensures
            *final(self) == old(self).begun_at(world_pos),
    {
        self.active = true;
        self.start_pos = Some(world_pos);
        self.current_pos = Some(world_pos);
    }

    /// Moves the current position of the operation.
    pub fn update(&mut self, world_pos: Vec2Bits)
        ensures
            *final(self) == old(self).moved_to(world_pos),
    {
        self.current_pos = Some(world_pos);
    }

    /// Ends the operation: idle, with no positions or drag offset.
    pub fn end(&mut self)
        ensures
            *final(self) == old(self).ended(),
    {
        self.active = false;
        self.start_pos = None;
        self.current_pos = None;
        self.drag_offset = None;
        self.last_paint_pos = None;
    }

    /// Records a painted position.
    pub fn record_paint(&mut self, pos: Vec2Bits)
        ensures
            *final(self) == old(self).painted_at(pos),
    {
        self.last_paint_pos = Some(pos);
    }
}

impl Default for ToolState {
    /// The select tool, idle, with paint spacing 0.
    fn default() -> (t: ToolState)
        ensures
            t == (ToolState {
                tool: EditorTool::Select,
                active: false,
                start_pos: None,
                current_pos: None,
                drag_offset: None,
                last_paint_pos: None,
                paint_spacing_bits: 0,
            }),
    {
        ToolState {
            tool: EditorTool::Select,
            active: false,
            start_pos: None,
            current_pos: None,
            drag_offset: None,
            last_paint_pos: None,
            paint_spacing_bits: 0,
        }
    }
}

/// Grid snapping settings; lengths and colors are `f32` bits.
#[derive(Debug, Clone, Copy, PartialEq, Eq, Structural)]
pub struct GridConfig {
    /// Whether grid snapping is on.
    pub enabled: bool,
    /// Grid cell size.
    pub cell_size: Vec2Bits,
    /// Grid origin offset.
    pub offset: Vec2Bits,
    /// Whether the grid is shown.
    pub visible: bool,
    /// Grid line color (RGBA).
    pub color: ColorBits,
    /// Major grid lines every this many cells.
    pub major_interval: u32,
    /// Major grid line color (RGBA).
    pub major_color: ColorBits,
}

/// The default grid: snapping on, 32 by 32 cells at the origin, shown, grey
/// lines `(0.3, 0.3, 0.3, 0.5)`, major lines every 4 cells in `(0.4, 0.4, 0.4, 0.7)`.
pub open spec fn default_grid() -> GridConfig {
    GridConfig {
        enabled: true,
        cell_size: Vec2Bits { x_bits: THIRTY_TWO_BITS, y_bits: THIRTY_TWO_BITS },
        offset: Vec2Bits { x_bits: 0, y_bits: 0 },
        visible: true,
        color: ColorBits { r_bits: 0x3e99_999a, g_bits: 0x3e99_999a, b_bits: 0x3e99_999a, a_bits: 0x3f00_0000 },
        major_interval: 4,
        major_color: ColorBits { r_bits: 0x3ecc_cccd, g_bits: 0x3ecc_cccd, b_bits: 0x3ecc_cccd, a_bits: 0x3f33_3333 },
    }
}

impl Default for GridConfig {
    fn default() -> (g: GridConfig)
        ensures
            g == default_grid(),
    {
        GridConfig {
            enabled: true,
            cell_size: Vec2Bits { x_bits: THIRTY_TWO_BITS, y_bits: THIRTY_TWO_BITS },
            offset: Vec2Bits { x_bits: 0, y_bits: 0 },
            visible: true,
            color: ColorBits { r_bits: 0x3e99_999a, g_bits: 0x3e99_999a, b_bits: 0x3e99_999a, a_bits: 0x3f00_0000 },
            major_interval: 4,
            major_color: ColorBits { r_bits: 0x3ecc_cccd, g_bits: 0x3ecc_cccd, b_bits: 0x3ecc_cccd, a_bits: 0x3f33_3333 },
        }
    }
}

} // verus!
