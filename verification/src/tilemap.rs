//! Tile grids, tile layers and auto-tiling.
//!
//! A [`TileLayer`] is a `width` x `height` grid of [`Tile`]s stored row by
//! row. Auto-tiling picks each matching tile's region from the four-neighbour
//! bitmask described by [`NeighborFlags`] and an [`AutoTileConfig`].
use crate::decimal::{decimal, decimal_string};
use vstd::prelude::*;
use vstd::std_specs::iter::IteratorSpec;

verus! {

// =============================================================================
// TILE COLLISION
// =============================================================================

/// Collision types for tiles.
#[derive(Clone, Copy, Debug, Default, PartialEq, Eq, Structural)]
pub enum TileCollision {
    /// No collision: can walk through.
    #[default]
    NoCollision,
    /// Solid: blocks all movement.
    Solid,
    /// Water: blocks walking but allows swimming or boats.
    Water,
    /// Platform: solid from above, passable from below.
    Platform,
    /// Trigger: no collision but fires events when entered.
    Trigger,
    /// Custom collision with a user-defined ID.
    Custom(u8),
}

impl TileCollision {
    /// Returns true if this tile blocks movement (solid or platform).
    pub fn is_solid(&self) -> (b: bool)
        ensures
            b == (*self is Solid || *self is Platform),
    {
        match self {
            TileCollision::Solid | TileCollision::Platform => true,
            _ => false,
        }
    }

    /// Returns true if this tile is water.
    pub fn is_water(&self) -> (b: bool)
        ensures
            b == (*self is Water),
    {
        match self {
            TileCollision::Water => true,
            _ => false,
        }
    }
}

// =============================================================================
// TILE FLIP
// =============================================================================

/// Flip/mirror flags for tile rendering.
#[derive(Clone, Copy, Debug, Default, PartialEq, Eq, Structural)]
pub enum TileFlip {
    /// No flip.
    #[default]
    NoFlip,
    /// Flipped horizontally.
    Horizontal,
    /// Flipped vertically.
    Vertical,
    /// Flipped both ways (180 degree rotation).
    Both,
}

/// Whether a flip mirrors horizontally.
pub open spec fn flips_h(f: TileFlip) -> bool {
    f is Horizontal || f is Both
}

/// Whether a flip mirrors vertically.
pub open spec fn flips_v(f: TileFlip) -> bool {
    f is Vertical || f is Both
}

/// The flip with the horizontal mirror toggled.
pub open spec fn toggled_h(f: TileFlip) -> TileFlip {
    match f {
        TileFlip::NoFlip => TileFlip::Horizontal,
        TileFlip::Horizontal => TileFlip::NoFlip,
        TileFlip::Vertical => TileFlip::Both,
        TileFlip::Both => TileFlip::Vertical,
    }
}

/// The flip with the vertical mirror toggled.
pub open spec fn toggled_v(f: TileFlip) -> TileFlip {
    match f {
        TileFlip::NoFlip => TileFlip::Vertical,
        TileFlip::Vertical => TileFlip::NoFlip,
        TileFlip::Horizontal => TileFlip::Both,
        TileFlip::Both => TileFlip::Horizontal,
    }
}

/// Toggling a mirror changes that mirror only; toggling twice undoes it;
/// the two toggles commute, and together they give the 180 degree turn.
pub proof fn lemma_flip_toggles(f: TileFlip)
    ensures
        flips_h(toggled_h(f)) == !flips_h(f),
        flips_v(toggled_h(f)) == flips_v(f),
        flips_v(toggled_v(f)) == !flips_v(f),
        flips_h(toggled_v(f)) == flips_h(f),
        toggled_h(toggled_h(f)) == f,
        toggled_v(toggled_v(f)) == f,
        toggled_h(toggled_v(f)) == toggled_v(toggled_h(f)),
        toggled_h(toggled_v(TileFlip::NoFlip)) == TileFlip::Both,
{
}

// =============================================================================
// TILE ANIMATION
// =============================================================================

/// Animation data for animated tiles.
///
/// The frame duration and the current animation time are seconds held as the
/// bit patterns of `f32` values.
#[derive(Debug)]
pub struct TileAnimation {
    /// Texture region names for each frame.
    pub frames: Vec<String>,
    /// Duration of each frame in seconds, as `f32` bits.
    pub frame_duration_bits: u32,
    /// Current animation time in seconds, as `f32` bits.
    pub current_time_bits: u32,
}

/// Two animations have the same frames and timing.
pub open spec fn same_animation(a: TileAnimation, b: TileAnimation) -> bool {
    &&& a.frames@ == b.frames@
    &&& a.frame_duration_bits == b.frame_duration_bits
    &&& a.current_time_bits == b.current_time_bits
}

impl Clone for TileAnimation {
    fn clone(&self) -> (a: Self)
        ensures
            same_animation(a, *self),
    {
        let frames = self.frames.clone();
        assert(frames@ =~= self.frames@);
        TileAnimation {
            frames,
            frame_duration_bits: self.frame_duration_bits,
            current_time_bits: self.current_time_bits,
        }
    }
}

impl TileAnimation {
    /// Creates an animation over `frames`, each lasting `frame_duration_bits`,
    /// starting at time zero.
    pub fn new(frames: Vec<String>, frame_duration_bits: u32) -> (a: TileAnimation)
        ensures
            a.frames == frames,
            a.frame_duration_bits == frame_duration_bits,
            a.current_time_bits == 0,
    {
        TileAnimation { frames, frame_duration_bits, current_time_bits: 0 }
    }
}

// =============================================================================
// TILE
// =============================================================================

/// A single tile in a tilemap layer.
#[derive(Debug)]
pub struct Tile {
    /// Name of the texture region in the atlas; empty means no tile.
    pub region_name: String,
    /// Collision flags for this tile.
    pub collision: TileCollision,
    /// Animation data, if animated.
    pub animation: Option<TileAnimation>,
    /// Flip flags for tile variations.
    pub flip: TileFlip,
}

/// `b` holds the same data as `a`: region, collision, flip, and an equal
/// animation if any.
pub open spec fn same_tile(a: Tile, b: Tile) -> bool {
    &&& a.region_name == b.region_name
    &&& a.collision == b.collision
    &&& a.flip == b.flip
    &&& (a.animation is Some <==> b.animation is Some)
    &&& (a.animation is Some ==> same_animation(a.animation->0, b.animation->0))
}

impl Clone for Tile {
    fn clone(&self) -> (t: Self)
        ensures
            same_tile(t, *self),
    {
        let animation = match &self.animation {
            Some(a) => Some(a.clone()),
            None => None,
        };
        Tile {
            region_name: self.region_name.clone(),
            collision: self.collision,
            animation,
            flip: self.flip,
        }
    }
}

/// A tile has no texture when its region name is empty.
pub open spec fn tile_is_empty(t: Tile) -> bool {
    t.region_name@.len() == 0
}

/// The blank tile: no region, no collision, no animation, no flip.
pub open spec fn is_blank(t: Tile) -> bool {
    &&& tile_is_empty(t)
    &&& t.collision == TileCollision::NoCollision
    &&& t.animation is None
    &&& t.flip == TileFlip::NoFlip
}

impl Tile {
    /// Creates a tile with the given texture region, no collision, no
    /// animation and no flip.
    pub fn new(region_name: &str) -> (t: Tile)
        ensures
            t.region_name@ == region_name@,
            t.collision == TileCollision::NoCollision,
            t.animation is None,
            t.flip == TileFlip::NoFlip,
    {
        Tile {
            region_name: region_name.to_owned(),
            collision: TileCollision::NoCollision,
            animation: None,
            flip: TileFlip::NoFlip,
        }
    }

    /// Creates an empty (transparent) tile.
    pub fn empty() -> (t: Tile)
        ensures
            t.region_name@ == Seq::<char>::empty(),
            t.collision == TileCollision::NoCollision,
            t.animation is None,
            t.flip == TileFlip::NoFlip,
    {
        Tile {
            region_name: String::new(),
            collision: TileCollision::NoCollision,
            animation: None,
            flip: TileFlip::NoFlip,
        }
    }

    /// Returns true if this tile has no texture.
    pub fn is_empty(&self) -> (b: bool)
        ensures
            b == tile_is_empty(*self),
    {
        self.region_name.as_str().is_empty()
    }

    /// Sets the collision type.
    pub fn with_collision(self, collision: TileCollision) -> (t: Tile)
        ensures
            t == (Tile { collision, ..self }),
    {
        let mut t = self;
        t.collision = collision;
        t
    }

    /// Makes this tile solid.
    pub fn solid(self) -> (t: Tile)
        ensures
            t == (Tile { collision: TileCollision::Solid, ..self }),
    {
        let mut t = self;
        t.collision = TileCollision::Solid;
        t
    }

    /// Sets the animation for this tile.
    pub fn with_animation(self, animation: TileAnimation) -> (t: Tile)
        ensures
            t == (Tile { animation: Some(animation), ..self }),
    {
        let mut t = self;
        t.animation = Some(animation);
        t
    }

    /// Sets the flip flags.
    pub fn with_flip(self, flip: TileFlip) -> (t: Tile)
        ensures
            t == (Tile { flip, ..self }),
    {
        let mut t = self;
        t.flip = flip;
        t
    }

    /// Flips the tile horizontally: toggles the horizontal mirror and keeps
    /// the vertical one.
    pub fn flip_h(self) -> (t: Tile)
        ensures
            t == (Tile { flip: toggled_h(self.flip), ..self }),
    {
        let mut t = self;
        t.flip = match t.flip {
            TileFlip::NoFlip => TileFlip::Horizontal,
            TileFlip::Horizontal => TileFlip::NoFlip,
            TileFlip::Vertical => TileFlip::Both,
            TileFlip::Both => TileFlip::Vertical,
        };
        t
    }

    /// Flips the tile vertically: toggles the vertical mirror and keeps the
    /// horizontal one.
    pub fn flip_v(self) -> (t: Tile)
        ensures
            t == (Tile { flip: toggled_v(self.flip), ..self }),
    {
        let mut t = self;
        t.flip = match t.flip {
            TileFlip::NoFlip => TileFlip::Vertical,
            TileFlip::Vertical => TileFlip::NoFlip,
            TileFlip::Horizontal => TileFlip::Both,
            TileFlip::Both => TileFlip::Horizontal,
        };
        t
    }
}

impl Default for Tile {
    fn default() -> (t: Tile)
        ensures
            tile_is_empty(t),
            t.collision == TileCollision::NoCollision,
            t.animation is None,
            t.flip == TileFlip::NoFlip,
    {
        Tile::empty()
    }
}

// =============================================================================
// NEIGHBOR FLAGS
// =============================================================================

/// The autotile index of a tile whose top, right, bottom and left
/// neighbours match as given: bits 0 to 3, in that order.
pub open spec fn flag_index(top: bool, right: bool, bottom: bool, left: bool) -> u8 {
    ((if top { 1int } else { 0int }) + (if right { 2int } else { 0int }) + (if bottom {
        4int
    } else {
        0int
    }) + (if left { 8int } else { 0int })) as u8
}

/// Neighbor flags for auto-tiling (4-connected), as a bitmask.
#[derive(Clone, Copy, Debug, Default, PartialEq, Eq, Structural)]
pub struct NeighborFlags(pub u8);

impl NeighborFlags {
    /// No neighbours.
    pub const NONE: u8 = 0;
    /// Bit of the top neighbour.
    pub const TOP: u8 = 1;
    /// Bit of the right neighbour.
    pub const RIGHT: u8 = 2;
    /// Bit of the bottom neighbour.
    pub const BOTTOM: u8 = 4;
    /// Bit of the left neighbour.
    pub const LEFT: u8 = 8;

    /// Flags with no neighbour set.
    pub fn new() -> (f: NeighborFlags)
        ensures
            f.0 == 0,
    {
        NeighborFlags(0)
    }

    /// Sets the top bit.
    pub fn with_top(self) -> (f: NeighborFlags)
        ensures
            f.0 == self.0 | 1,
    {
        NeighborFlags(self.0 | Self::TOP)
    }

    /// Sets the right bit.
    pub fn with_right(self) -> (f: NeighborFlags)
        ensures
            f.0 == self.0 | 2,
    {
        NeighborFlags(self.0 | Self::RIGHT)
    }

    /// Sets the bottom bit.
    pub fn with_bottom(self) -> (f: NeighborFlags)
        ensures
            f.0 == self.0 | 4,
    {
        NeighborFlags(self.0 | Self::BOTTOM)
    }

    /// Sets the left bit.
    pub fn with_left(self) -> (f: NeighborFlags)
        ensures
            f.0 == self.0 | 8,
    {
        NeighborFlags(self.0 | Self::LEFT)
    }

    /// Whether the top bit is set.
    pub fn has_top(&self) -> (b: bool)
        ensures
            b == (self.0 & 1 != 0),
    {
        self.0 & Self::TOP != 0
    }

    /// Whether the right bit is set.
    pub fn has_right(&self) -> (b: bool)
        ensures
            b == (self.0 & 2 != 0),
    {
        self.0 & Self::RIGHT != 0
    }

    /// Whether the bottom bit is set.
    pub fn has_bottom(&self) -> (b: bool)
        ensures
            b == (self.0 & 4 != 0),
    {
        self.0 & Self::BOTTOM != 0
    }

    /// Whether the left bit is set.
    pub fn has_left(&self) -> (b: bool)
        ensures
            b == (self.0 & 8 != 0),
    {
        self.0 & Self::LEFT != 0
    }

    /// Returns the tile index for the 16-tile autotile system.
    pub fn tile_index(&self) -> (i: u8)
        ensures
            i == self.0,
    {
        self.0
    }
}

/// Setting the four neighbour bits on empty flags in any order gives
/// `flag_index`, an index in `0..16`, from which each bit reads back.
pub proof fn lemma_flag_index_bits(top: bool, right: bool, bottom: bool, left: bool)
    ensures
        flag_index(top, right, bottom, left) < 16,
        (flag_index(top, right, bottom, left) & 1 != 0) == top,
        (flag_index(top, right, bottom, left) & 2 != 0) == right,
        (flag_index(top, right, bottom, left) & 4 != 0) == bottom,
        (flag_index(top, right, bottom, left) & 8 != 0) == left,
{
    let v = flag_index(top, right, bottom, left);
    let t: u8 = if top { 1 } else { 0 };
    let r: u8 = if right { 2 } else { 0 };
    let b: u8 = if bottom { 4 } else { 0 };
    let l: u8 = if left { 8 } else { 0 };
    assert(v == t + r + b + l);
    assert((t == 0 || t == 1) && (r == 0 || r == 2) && (b == 0 || b == 4) && (l == 0 || l == 8)
        ==> (((t + r + b + l) as u8 & 1 != 0) <==> t == 1)) by (bit_vector);
    assert((t == 0 || t == 1) && (r == 0 || r == 2) && (b == 0 || b == 4) && (l == 0 || l == 8)
        ==> (((t + r + b + l) as u8 & 2 != 0) <==> r == 2)) by (bit_vector);
    assert((t == 0 || t == 1) && (r == 0 || r == 2) && (b == 0 || b == 4) && (l == 0 || l == 8)
        ==> (((t + r + b + l) as u8 & 4 != 0) <==> b == 4)) by (bit_vector);
    assert((t == 0 || t == 1) && (r == 0 || r == 2) && (b == 0 || b == 4) && (l == 0 || l == 8)
        ==> (((t + r + b + l) as u8 & 8 != 0) <==> l == 8)) by (bit_vector);
}

/// Setting a flag bit on flags that do not have it adds the bit's value.
proof fn lemma_or_adds_bit(a: u8, bit: u8)
    requires
        bit == 1 || bit == 2 || bit == 4 || bit == 8,
        a < bit,
    ensures
        a | bit == a + bit,
{
    assert(a < bit && (bit == 1 || bit == 2 || bit == 4 || bit == 8) ==> a | bit == a + bit)
        by (bit_vector);
}

// =============================================================================
// AUTO-TILE CONFIGURATION
// =============================================================================

/// Whether `prefix` is a prefix of `s`.
fn str_has_prefix(s: &str, prefix: &str) -> (b: bool)
    ensures
        b == (prefix@.len() <= s@.len() && s@.subrange(0, prefix@.len() as int) == prefix@),
{
    let n = prefix.unicode_len();
    let m = s.unicode_len();
    if n > m {
        return false;
    }
    let mut i: usize = 0;
    while i < n
        invariant
            n == prefix@.len(),
            m == s@.len(),
            n <= m,
            i <= n,
            forall|k: int| 0 <= k < i ==> s@[k] == prefix@[k],
        decreases n - i,
    {
        if s.get_char(i) != prefix.get_char(i) {
            assert(s@.subrange(0, n as int)[i as int] != prefix@[i as int]);
            return false;
        }
        i = i + 1;
    }
    assert(s@.subrange(0, n as int) =~= prefix@);
    true
}

/// Auto-tile configuration for the 16-variant, four-neighbour system.
#[derive(Clone, Debug)]
pub struct AutoTileConfig {
    /// Prefix for generated region names ("grass_" gives "grass_0" .. "grass_15").
    pub prefix: String,
    /// Explicit region names for the 16 variants; overrides the prefix.
    pub regions: Option<[String; 16]>,
}

/// The region name that `config` gives to tile index `index`.
pub open spec fn region_for(config: AutoTileConfig, index: nat) -> Seq<char> {
    match config.regions {
        Some(regions) => regions@[index as int]@,
        None => config.prefix@ + decimal(index),
    }
}

impl AutoTileConfig {
    /// Creates a configuration that names regions `prefix` followed by the
    /// decimal tile index.
    pub fn new(prefix: &str) -> (c: AutoTileConfig)
        ensures
            c.prefix@ == prefix@,
            c.regions is None,
    {
        AutoTileConfig { prefix: prefix.to_owned(), regions: None }
    }

    /// Creates a configuration with explicit region names for all 16 variants.
    pub fn with_regions(regions: [&str; 16]) -> (c: AutoTileConfig)
        ensures
            c.prefix@ == Seq::<char>::empty(),
            c.regions matches Some(r) && forall|i: int| 0 <= i < 16 ==> #[trigger] r@[i]@ == regions@[i]@,
    {
        let names: [String; 16] = [
            regions[0].to_owned(),
            regions[1].to_owned(),
            regions[2].to_owned(),
            regions[3].to_owned(),
            regions[4].to_owned(),
            regions[5].to_owned(),
            regions[6].to_owned(),
            regions[7].to_owned(),
            regions[8].to_owned(),
            regions[9].to_owned(),
            regions[10].to_owned(),
            regions[11].to_owned(),
            regions[12].to_owned(),
            regions[13].to_owned(),
            regions[14].to_owned(),
            regions[15].to_owned(),
        ];
        AutoTileConfig { prefix: String::new(), regions: Some(names) }
    }

    /// Whether the tile's region name belongs to this configuration.
    fn region_matches_impl(&self, tile: &Tile) -> (b: bool)
        ensures
            b == region_member(*self, tile.region_name@),
    {
        match &self.regions {
            Some(regions) => {
                let mut i: usize = 0;
                while i < 16
                    invariant
                        self.regions == Some(*regions),
                        i <= 16,
                        forall|k: int| 0 <= k < i ==> #[trigger] regions@[k]@ != tile.region_name@,
                    decreases 16 - i,
                {
                    if regions[i] == tile.region_name {
                        assert(regions@[i as int]@ == tile.region_name@);
                        assert(self.regions->0@[i as int]@ == tile.region_name@);
                        return true;
                    }
                    i = i + 1;
                }
                false
            },
            None => str_has_prefix(tile.region_name.as_str(), self.prefix.as_str()),
        }
    }

    /// The region name for tile index `index`.
    fn region_at(&self, index: u8) -> (s: String)
        requires
            self.regions is Some ==> index < 16,
        ensures
            s@ == region_for(*self, index as nat),
    {
        match &self.regions {
            Some(regions) => regions[index as usize].clone(),
            None => self.prefix.clone().concat(decimal_string(index).as_str()),
        }
    }

    /// Gets the region name for the given neighbour flags.
    pub fn get_region(&self, flags: NeighborFlags) -> (s: String)
        requires
            self.regions is Some ==> flags.0 < 16,
        ensures
            s@ == region_for(*self, flags.0 as nat),
    {
        self.region_at(flags.tile_index())
    }

    /// Gets the region name for tile index `index`, taken modulo 16.
    pub fn get_region_by_index(&self, index: u8) -> (s: String)
        ensures
            s@ == region_for(*self, (index % 16) as nat),
    {
        let masked = index & 0x0F;
        assert(index & 0x0F == index % 16) by (bit_vector);
        self.region_at(masked)
    }
}

// =============================================================================
// TILE LAYER
// =============================================================================

/// Position of cell `(x, y)` in a row-major grid of width `w`.
pub open spec fn cell_index(x: int, y: int, w: int) -> int {
    y * w + x
}

/// Distinct cells of a row-major grid sit at distinct positions.
proof fn lemma_cell_index_injective(x1: int, y1: int, x2: int, y2: int, w: int)
    requires
        0 <= x1 < w,
        0 <= x2 < w,
        0 <= y1,
        0 <= y2,
        cell_index(x1, y1, w) == cell_index(x2, y2, w),
    ensures
        x1 == x2,
        y1 == y2,
{
    if y1 < y2 {
        assert(y1 * w + w <= y2 * w) by (nonlinear_arith)
            requires
                y1 < y2,
                0 <= w,
        ;
    } else if y2 < y1 {
        assert(y2 * w + w <= y1 * w) by (nonlinear_arith)
            requires
                y2 < y1,
                0 <= w,
        ;
    }
}

/// A cell inside a `w` x `h` grid sits before position `w * h`.
proof fn lemma_cell_index_bounds(x: int, y: int, w: int, h: int)
    requires
        0 <= x < w,
        0 <= y < h,
    ensures
        0 <= cell_index(x, y, w) < w * h,
{
    assert(0 <= y * w + x < w * h) by (nonlinear_arith)
        requires
            0 <= x < w,
            0 <= y < h,
    ;
}

/// The abstract state of a [`TileLayer`]: its settings and its grid.
#[verifier::ext_equal]
pub struct LayerView {
    /// Layer name.
    pub name: Seq<char>,
    /// Width in tiles.
    pub width: u32,
    /// Height in tiles.
    pub height: u32,
    /// Z-order for rendering.
    pub z_order: i32,
    /// Opacity, as `f32` bits.
    pub opacity_bits: u32,
    /// Visibility.
    pub visible: bool,
    /// The tiles, row-major.
    pub tiles: Seq<Tile>,
}

impl LayerView {
    /// The layer holds exactly one tile per cell, and its cells can be
    /// numbered in a `u32`.
    pub open spec fn wf(self) -> bool {
        &&& self.tiles.len() == self.width * self.height
        &&& self.width * self.height <= u32::MAX
    }

    /// Whether `(x, y)` is a cell of this layer.
    pub open spec fn in_bounds(self, x: int, y: int) -> bool {
        0 <= x < self.width && 0 <= y < self.height
    }

    /// The tile in cell `(x, y)`.
    pub open spec fn tile_at(self, x: int, y: int) -> Tile {
        self.tiles[cell_index(x, y, self.width as int)]
    }

    /// This layer with cell `(x, y)` holding `t`.
    pub open spec fn set_cell(self, x: int, y: int, t: Tile) -> LayerView {
        LayerView { tiles: self.tiles.update(cell_index(x, y, self.width as int), t), ..self }
    }

    /// The same settings as `other`, for a grid of the same size.
    pub open spec fn same_settings(self, other: LayerView) -> bool {
        &&& self.name == other.name
        &&& self.width == other.width
        &&& self.height == other.height
        &&& self.z_order == other.z_order
        &&& self.opacity_bits == other.opacity_bits
        &&& self.visible == other.visible
    }
}

/// A single layer in a tilemap: a grid of tiles stored row by row.
#[derive(Clone, Debug)]
pub struct TileLayer {
    /// Layer name, for lookup.
    pub name: String,
    /// Width in tiles.
    pub width: u32,
    /// Height in tiles.
    pub height: u32,
    /// Z-order for rendering (lower is further behind).
    pub z_order: i32,
    /// Opacity in `[0, 1]`, as `f32` bits.
    pub opacity_bits: u32,
    /// Whether this layer is visible.
    pub visible: bool,
    /// The tiles, row-major: cell `(x, y)` is at `y * width + x`.
    tiles: Vec<Tile>,
}

/// Setting one cell changes that cell and no other.
pub proof fn lemma_set_cell(v: LayerView, x: int, y: int, t: Tile, a: int, b: int)
    requires
        v.wf(),
        v.in_bounds(x, y),
        v.in_bounds(a, b),
    ensures
        v.set_cell(x, y, t).wf(),
        v.set_cell(x, y, t).tile_at(a, b) == if a == x && b == y {
            t
        } else {
            v.tile_at(a, b)
        },
{
    lemma_cell_index_bounds(x, y, v.width as int, v.height as int);
    lemma_cell_index_bounds(a, b, v.width as int, v.height as int);
    if cell_index(a, b, v.width as int) == cell_index(x, y, v.width as int) {
        lemma_cell_index_injective(a, b, x, y, v.width as int);
    }
}

/// `(a, b)` lies in the rectangle of `width` x `height` cells whose top-left
/// cell is `(x, y)`.
pub open spec fn in_rect(a: int, b: int, x: int, y: int, width: int, height: int) -> bool {
    x <= a < x + width && y <= b < y + height
}

/// The number of non-empty tiles in `s`.
pub open spec fn count_non_empty(s: Seq<Tile>) -> nat
    decreases s.len(),
{
    if s.len() == 0 {
        0
    } else {
        count_non_empty(s.drop_last()) + if tile_is_empty(s.last()) {
            0nat
        } else {
            1nat
        }
    }
}

/// The matching predicate `f` accepts tile `t`.
pub open spec fn matches<F: Fn(&Tile) -> bool>(f: F, t: Tile) -> bool {
    f.ensures((&t,), true)
}

/// `f` can be called on every tile and gives one answer per tile.
pub open spec fn is_tile_predicate<F: Fn(&Tile) -> bool>(f: F) -> bool {
    &&& forall|t: &Tile| #[trigger] f.requires((t,))
    &&& forall|t: &Tile, a: bool, b: bool|
        #[trigger] f.ensures((t,), a) && #[trigger] f.ensures((t,), b) ==> a == b
}

/// `pred` tells exactly what `f` answers: whenever `f` returns `r` on a
/// tile, `r` is `pred` of that tile.
pub open spec fn answers<F: Fn(&Tile) -> bool>(f: F, pred: spec_fn(Tile) -> bool) -> bool {
    &&& forall|t: &Tile| #[trigger] f.requires((t,))
    &&& forall|t: &Tile, r: bool| #[trigger] f.ensures((t,), r) ==> r == pred(*t)
}

/// The autotile index of cell `(x, y)`: which of its four neighbours inside
/// the layer satisfy `pred`.
pub open spec fn neighbor_index(pred: spec_fn(Tile) -> bool, v: LayerView, x: int, y: int) -> u8 {
    flag_index(
        y > 0 && pred(v.tile_at(x, y - 1)),
        x + 1 < v.width && pred(v.tile_at(x + 1, y)),
        y + 1 < v.height && pred(v.tile_at(x, y + 1)),
        x > 0 && pred(v.tile_at(x - 1, y)),
    )
}

/// The region auto-tiling gives cell `(x, y)`: `None` when the tile is left
/// alone (it does not satisfy `pred` or is empty).
pub open spec fn planned_region(
    pred: spec_fn(Tile) -> bool,
    config: AutoTileConfig,
    v: LayerView,
    x: int,
    y: int,
) -> Option<Seq<char>> {
    let t = v.tile_at(x, y);
    if pred(t) && !tile_is_empty(t) {
        Some(region_for(config, neighbor_index(pred, v, x, y) as nat))
    } else {
        None
    }
}

/// The outcome of auto-tiling `old` into `new` with predicate `pred`.
pub open spec fn autotiled(
    pred: spec_fn(Tile) -> bool,
    config: AutoTileConfig,
    old: LayerView,
    new: LayerView,
) -> bool {
    &&& new.wf()
    &&& new.same_settings(old)
    &&& forall|a: int, b: int|
        #![trigger new.tile_at(a, b)]
        old.in_bounds(a, b) ==> match planned_region(pred, config, old, a, b) {
            Some(region) => {
                let t = new.tile_at(a, b);
                let o = old.tile_at(a, b);
                &&& t.region_name@ == region
                &&& t.collision == o.collision
                &&& t.animation == o.animation
                &&& t.flip == o.flip
            },
            None => new.tile_at(a, b) == old.tile_at(a, b),
        }
}

/// Region name `s` belongs to `config`: it is one of the explicit names, or
/// it starts with the prefix when there are none.
pub open spec fn region_member(config: AutoTileConfig, s: Seq<char>) -> bool {
    match config.regions {
        Some(regions) => exists|i: int| 0 <= i < 16 && #[trigger] regions@[i]@ == s,
        None => config.prefix@.len() <= s.len() && s.subrange(0, config.prefix@.len() as int)
            == config.prefix@,
    }
}

/// Every region name a configuration hands out belongs to it.
pub proof fn lemma_generated_regions_belong(config: AutoTileConfig, k: nat)
    requires
        k < 16,
    ensures
        region_member(config, region_for(config, k)),
{
    match config.regions {
        Some(regions) => {
            assert(regions@[k as int]@ == region_for(config, k));
        },
        None => {
            let p = config.prefix@;
            assert((p + decimal(k)).subrange(0, p.len() as int) =~= p);
        },
    }
}

/// The region of cell `(a, b)` once the rectangle at `(x, y)` of size
/// `w` x `h` is filled with the base region (index 0) of `config`.
pub open spec fn filled_region(
    config: AutoTileConfig,
    old: LayerView,
    x: int,
    y: int,
    w: int,
    h: int,
    a: int,
    b: int,
) -> Seq<char> {
    if in_rect(a, b, x, y, w, h) {
        region_for(config, 0)
    } else {
        old.tile_at(a, b).region_name@
    }
}

/// After filling, cell `(a, b)` lies in the layer and belongs to `config`.
pub open spec fn filled_member(
    config: AutoTileConfig,
    old: LayerView,
    x: int,
    y: int,
    w: int,
    h: int,
    a: int,
    b: int,
) -> bool {
    old.in_bounds(a, b) && region_member(config, filled_region(config, old, x, y, w, h, a, b))
}

/// After filling, the autotile index of cell `(a, b)`.
pub open spec fn filled_index(
    config: AutoTileConfig,
    old: LayerView,
    x: int,
    y: int,
    w: int,
    h: int,
    a: int,
    b: int,
) -> u8 {
    flag_index(
        filled_member(config, old, x, y, w, h, a, b - 1),
        filled_member(config, old, x, y, w, h, a + 1, b),
        filled_member(config, old, x, y, w, h, a, b + 1),
        filled_member(config, old, x, y, w, h, a - 1, b),
    )
}

/// Auto-tiling twice gives the same tiles as auto-tiling once, when the
/// matching predicate looks only at region names and accepts every region
/// name the configuration hands out.
pub proof fn lemma_autotile_idempotent(
    pred: spec_fn(Tile) -> bool,
    config: AutoTileConfig,
    v1: LayerView,
    v2: LayerView,
    v3: LayerView,
)
    requires
        forall|t1: Tile, t2: Tile| t1.region_name@ == t2.region_name@ ==> pred(t1) == pred(t2),
        forall|t: Tile, k: nat|
            #![trigger pred(t), region_for(config, k)]
            k < 16 && t.region_name@ == region_for(config, k) ==> pred(t),
        autotiled(pred, config, v1, v2),
        autotiled(pred, config, v2, v3),
    ensures
        forall|a: int, b: int|
            #![trigger v3.tile_at(a, b)]
            v1.in_bounds(a, b) ==> {
                let t3 = v3.tile_at(a, b);
                let t2 = v2.tile_at(a, b);
                &&& t3.region_name@ == t2.region_name@
                &&& t3.collision == t2.collision
                &&& t3.animation == t2.animation
                &&& t3.flip == t2.flip
            },
{
    assert forall|a: int, b: int| v1.in_bounds(a, b) implies pred(v2.tile_at(a, b)) == pred(v1.tile_at(a, b)) by {
        let t1 = v1.tile_at(a, b);
        let t2 = v2.tile_at(a, b);
        match planned_region(pred, config, v1, a, b) {
            Some(region) => {
                let k = neighbor_index(pred, v1, a, b);
                lemma_flag_index_bits(
                    b > 0 && pred(v1.tile_at(a, b - 1)),
                    a + 1 < v1.width && pred(v1.tile_at(a + 1, b)),
                    b + 1 < v1.height && pred(v1.tile_at(a, b + 1)),
                    a > 0 && pred(v1.tile_at(a - 1, b)),
                );
                assert(t2.region_name@ == region_for(config, k as nat));
                assert(pred(t2));
            },
            None => {},
        }
    }
    assert forall|a: int, b: int| v1.in_bounds(a, b) implies neighbor_index(pred, v2, a, b) == neighbor_index(pred, v1, a, b) by {
        if b > 0 {
            assert(v1.in_bounds(a, b - 1));
        }
        if a + 1 < v1.width {
            assert(v1.in_bounds(a + 1, b));
        }
        if b + 1 < v1.height {
            assert(v1.in_bounds(a, b + 1));
        }
        if a > 0 {
            assert(v1.in_bounds(a - 1, b));
        }
    }
}

/// The text an optional region name holds.
pub open spec fn opt_text(o: Option<String>) -> Option<Seq<char>> {
    match o {
        Some(s) => Some(s@),
        None => None,
    }
}

/// The bits of the `f32` value `1.0`: a fully opaque layer.
pub const FULL_OPACITY_BITS: u32 = 0x3f80_0000;

impl View for TileLayer {
    type V = LayerView;

    closed spec fn view(&self) -> LayerView {
        LayerView {
            name: self.name@,
            width: self.width,
            height: self.height,
            z_order: self.z_order,
            opacity_bits: self.opacity_bits,
            visible: self.visible,
            tiles: self.tiles@,
        }
    }
}

impl TileLayer {
    /// Creates a layer of the given size filled with empty tiles, at z-order 0,
    /// fully opaque and visible.
    pub fn new(name: &str, width: u32, height: u32) -> (l: TileLayer)
        requires
            width * height <= u32::MAX,
        ensures
            l@.wf(),
            l@.name == name@,
            l@.width == width,
            l@.height == height,
            l@.z_order == 0,
            l@.opacity_bits == FULL_OPACITY_BITS,
            l@.visible,
            forall|x: int, y: int|
                l@.in_bounds(x, y) ==> is_blank(#[trigger] l@.tile_at(x, y)),
    {
        let size = (width * height) as usize;
        let blank = Tile::empty();
        let tiles = vec![blank; size];
        assert forall|x: int, y: int| 0 <= x < width && 0 <= y < height implies is_blank(
            #[trigger] tiles@[cell_index(x, y, width as int)],
        ) by {
            lemma_cell_index_bounds(x, y, width as int, height as int);
            let t = tiles@[cell_index(x, y, width as int)];
            assert(cloned(blank, t));
        }
        TileLayer {
            name: name.to_owned(),
            width,
            height,
            z_order: 0,
            opacity_bits: FULL_OPACITY_BITS,
            visible: true,
            tiles,
        }
    }
}

impl TileLayer {
    /// Sets the z-order for this layer.
    pub fn with_z_order(self, z_order: i32) -> (l: TileLayer)
        ensures
            l@ == (LayerView { z_order, ..self@ }),
    {
        let mut l = self;
        l.z_order = z_order;
        l
    }

    /// Fills the entire layer with copies of `tile`.
    pub fn fill(self, tile: Tile) -> (l: TileLayer)
        requires
            self@.width * self@.height <= u32::MAX,
        ensures
            l@.wf(),
            l@.same_settings(self@),
            forall|x: int, y: int| l@.in_bounds(x, y) ==> same_tile(#[trigger] l@.tile_at(x, y), tile),
    {
        let mut l = self;
        let size = (l.width * l.height) as usize;
        let tiles = vec![tile; size];
        assert forall|x: int, y: int| 0 <= x < l.width && 0 <= y < l.height implies same_tile(
            #[trigger] tiles@[cell_index(x, y, l.width as int)],
            tile,
        ) by {
            lemma_cell_index_bounds(x, y, l.width as int, l.height as int);
            assert(cloned(tile, tiles@[cell_index(x, y, l.width as int)]));
        }
        l.tiles = tiles;
        l
    }

    /// Position of cell `(x, y)` in the tile vector.
    fn index_of(&self, x: u32, y: u32) -> (i: usize)
        requires
            self@.wf(),
            self@.in_bounds(x as int, y as int),
        ensures
            i == cell_index(x as int, y as int, self.width as int),
            i < self.tiles@.len(),
    {
        proof {
            lemma_cell_index_bounds(x as int, y as int, self.width as int, self.height as int);
            assert(y * self.width <= y * self.width + x);
        }
        (y * self.width + x) as usize
    }

    /// Gets the tile at `(x, y)`, or `None` outside the layer.
    pub fn get(&self, x: u32, y: u32) -> (t: Option<&Tile>)
        requires
            self@.wf(),
        ensures
            t == (if self@.in_bounds(x as int, y as int) {
                Some(&self@.tile_at(x as int, y as int))
            } else {
                None
            }),
    {
        if x < self.width && y < self.height {
            let i = self.index_of(x, y);
            Some(&self.tiles[i])
        } else {
            None
        }
    }

    /// Gets the tile at `(x, y)` for modification, or `None` outside the layer.
    pub fn get_mut(&mut self, x: u32, y: u32) -> (t: Option<&mut Tile>)
        requires
            old(self)@.wf(),
        ensures
            t is Some <==> old(self)@.in_bounds(x as int, y as int),
            t is None ==> final(self)@ == old(self)@,
            t matches Some(r) ==> *r == old(self)@.tile_at(x as int, y as int) && final(self)@
                == old(self)@.set_cell(x as int, y as int, *final(r)),
    {
        if x < self.width && y < self.height {
            let i = self.index_of(x, y);
            Some(&mut self.tiles[i])
        } else {
            None
        }
    }

    /// Sets the tile at `(x, y)`; does nothing outside the layer.
    pub fn set(&mut self, x: u32, y: u32, tile: Tile)
        requires
            old(self)@.wf(),
        ensures
            final(self)@ == if old(self)@.in_bounds(x as int, y as int) {
                old(self)@.set_cell(x as int, y as int, tile)
            } else {
                old(self)@
            },
    {
        if x < self.width && y < self.height {
            let i = self.index_of(x, y);
            self.tiles.set(i, tile);
        }
    }

    /// Fills the cells of the rectangle at `(x, y)` of the given size that lie
    /// inside the layer with copies of `tile`.
    pub fn fill_rect(&mut self, x: u32, y: u32, width: u32, height: u32, tile: Tile)
        requires
            old(self)@.wf(),
            x + width <= u32::MAX,
            y + height <= u32::MAX,
        ensures
            final(self)@.wf(),
            final(self)@.same_settings(old(self)@),
            forall|a: int, b: int|
                #![trigger final(self)@.tile_at(a, b)]
                old(self)@.in_bounds(a, b) ==> if in_rect(
                    a,
                    b,
                    x as int,
                    y as int,
                    width as int,
                    height as int,
                ) {
                    same_tile(final(self)@.tile_at(a, b), tile)
                } else {
                    final(self)@.tile_at(a, b) == old(self)@.tile_at(a, b)
                },
    {
        let y_end = if y + height < self.height {
            y + height
        } else {
            self.height
        };
        let x_end = if x + width < self.width {
            x + width
        } else {
            self.width
        };
        let ghost start = self@;
        let mut ty = y;
        while ty < y_end
            invariant
                start == old(self)@,
                start.wf(),
                self@.wf(),
                self@.same_settings(start),
                y <= ty,
                ty <= y_end || ty == y,
                y_end <= self.height,
                x_end <= self.width,
                y_end == if y + height < self.height { y + height } else { self.height as int },
                x_end == if x + width < self.width { x + width } else { self.width as int },
                forall|a: int, b: int|
                    #![trigger self@.tile_at(a, b)]
                    start.in_bounds(a, b) ==> if x <= a < x_end && y <= b < ty {
                        same_tile(self@.tile_at(a, b), tile)
                    } else {
                        self@.tile_at(a, b) == start.tile_at(a, b)
                    },
            decreases y_end - ty,
        {
            let mut tx = x;
            while tx < x_end
                invariant
                    start.wf(),
                    self@.wf(),
                    self@.same_settings(start),
                    y <= ty < y_end,
                    x <= tx,
                    tx <= x_end || tx == x,
                    y_end <= self.height,
                    x_end <= self.width,
                    forall|a: int, b: int|
                        #![trigger self@.tile_at(a, b)]
                        start.in_bounds(a, b) ==> if (x <= a < x_end && y <= b < ty) || (x <= a
                            < tx && b == ty) {
                            same_tile(self@.tile_at(a, b), tile)
                        } else {
                            self@.tile_at(a, b) == start.tile_at(a, b)
                        },
                decreases x_end - tx,
            {
                let ghost before = self@;
                let copy = tile.clone();
                self.set(tx, ty, copy);
                proof {
                    lemma_set_cell(before, tx as int, ty as int, copy, tx as int, ty as int);
                }
                assert forall|a: int, b: int| start.in_bounds(a, b) implies #[trigger] self@.tile_at(a, b)
                    == if a == tx && b == ty {
                    copy
                } else {
                    before.tile_at(a, b)
                } by {
                    lemma_set_cell(before, tx as int, ty as int, copy, a, b);
                }
                tx = tx + 1;
            }
            ty = ty + 1;
        }
    }

    /// Lists every cell with its position, row by row: entry
    /// `y * width + x` is `(x, y, tile at (x, y))`.
    pub fn iter(&self) -> (cells: Vec<(u32, u32, &Tile)>)
        requires
            self@.wf(),
        ensures
            cells@.len() == self@.tiles.len(),
            forall|x: int, y: int|
                #![trigger self@.tile_at(x, y)]
                self@.in_bounds(x, y) ==> cells@[cell_index(x, y, self@.width as int)] == (
                    x as u32,
                    y as u32,
                    &self@.tile_at(x, y),
                ),
    {
        let w = self.width;
        let h = self.height;
        let mut cells: Vec<(u32, u32, &Tile)> = Vec::new();
        let mut y: u32 = 0;
        while y < h
            invariant
                self@.wf(),
                w == self@.width,
                h == self@.height,
                y <= h,
                cells@.len() == y * w,
                forall|a: int, b: int|
                    #![trigger self@.tile_at(a, b)]
                    0 <= a < w && 0 <= b < y ==> cells@[cell_index(a, b, w as int)] == (
                        a as u32,
                        b as u32,
                        &self@.tile_at(a, b),
                    ),
            decreases h - y,
        {
            let mut x: u32 = 0;
            while x < w
                invariant
                    self@.wf(),
                    w == self@.width,
                    h == self@.height,
                    y < h,
                    x <= w,
                    cells@.len() == y * w + x,
                    forall|a: int, b: int|
                        #![trigger self@.tile_at(a, b)]
                        0 <= a < w && 0 <= b <= y && (b < y || a < x) ==> cells@[cell_index(
                            a,
                            b,
                            w as int,
                        )] == (a as u32, b as u32, &self@.tile_at(a, b)),
                decreases w - x,
            {
                let i = self.index_of(x, y);
                cells.push((x, y, &self.tiles[i]));
                proof {
                    assert forall|a: int, b: int|
                        0 <= a < w && 0 <= b <= y && (b < y || a < x + 1) implies #[trigger] cells@[cell_index(
                            a,
                            b,
                            w as int,
                        )] == (a as u32, b as u32, &self@.tile_at(a, b)) by {
                        if cell_index(a, b, w as int) == cell_index(x as int, y as int, w as int) {
                            lemma_cell_index_injective(a, b, x as int, y as int, w as int);
                        } else if b == y {
                            assert(a < x);
                        } else {
                            assert(cell_index(a, b, w as int) < y * w) by (nonlinear_arith)
                                requires
                                    0 <= a < w,
                                    0 <= b < y,
                            ;
                        }
                    }
                }
                x = x + 1;
            }
            proof {
                assert((y + 1) * w == y * w + w) by (nonlinear_arith);
            }
            y = y + 1;
        }
        proof {
            assert(h * w == w * h) by (nonlinear_arith);
        }
        cells
    }

    /// Returns the number of non-empty tiles.
    pub fn tile_count(&self) -> (n: usize)
        requires
            self@.wf(),
        ensures
            n == count_non_empty(self@.tiles),
    {
        let mut n: usize = 0;
        let mut i: usize = 0;
        while i < self.tiles.len()
            invariant
                i <= self.tiles@.len(),
                n == count_non_empty(self.tiles@.take(i as int)),
                n <= i,
            decreases self.tiles@.len() - i,
        {
            assert(self.tiles@.take(i + 1).drop_last() =~= self.tiles@.take(i as int));
            if !self.tiles[i].is_empty() {
                n = n + 1;
            }
            i = i + 1;
        }
        assert(self.tiles@.take(i as int) =~= self.tiles@);
        n
    }

    /// Whether the tile at `(x, y)` is inside the layer and matches `match_fn`.
    fn neighbor_matches<F: Fn(&Tile) -> bool>(
        &self,
        x: u32,
        y: u32,
        match_fn: &F,
        Ghost(pred): Ghost<spec_fn(Tile) -> bool>,
    ) -> (b: bool)
        requires
            self@.wf(),
            answers(*match_fn, pred),
        ensures
            b == (self@.in_bounds(x as int, y as int) && pred(self@.tile_at(x as int, y as int))),
            self@.in_bounds(x as int, y as int) ==> match_fn.ensures(
                (&self@.tile_at(x as int, y as int),),
                b,
            ),
    {
        match self.get(x, y) {
            Some(t) => match_fn(t),
            None => false,
        }
    }

    /// Auto-tiles the layer with the predicate `pred` that `match_fn` computes.
    fn autotile_with<F: Fn(&Tile) -> bool>(
        &mut self,
        config: &AutoTileConfig,
        match_fn: &F,
        Ghost(pred): Ghost<spec_fn(Tile) -> bool>,
    )
        requires
            old(self)@.wf(),
            answers(*match_fn, pred),
        ensures
            autotiled(pred, *config, old(self)@, final(self)@),
            forall|a: int, b: int|
                old(self)@.in_bounds(a, b) ==> match_fn.ensures(
                    (&old(self)@.tile_at(a, b),),
                    pred(#[trigger] old(self)@.tile_at(a, b)),
                ),
    {
        let ghost start = self@;
        let w = self.width;
        let h = self.height;
        // First pass: the new region of every cell, in row-major order.
        let mut plan: Vec<Option<String>> = Vec::new();
        let mut y: u32 = 0;
        while y < h
            invariant
                self@ == start,
                start.wf(),
                w == start.width,
                h == start.height,
                answers(*match_fn, pred),
                y <= h,
                plan@.len() == y * w,
                forall|a: int, b: int|
                    #![trigger plan@[cell_index(a, b, w as int)]]
                    0 <= a < w && 0 <= b < y ==> opt_text(plan@[cell_index(a, b, w as int)])
                        == planned_region(pred, *config, start, a, b),
                forall|a: int, b: int|
                    0 <= a < w && 0 <= b < y ==> match_fn.ensures(
                        (&start.tile_at(a, b),),
                        pred(#[trigger] start.tile_at(a, b)),
                    ),
            decreases h - y,
        {
            let mut x: u32 = 0;
            while x < w
                invariant
                    self@ == start,
                    start.wf(),
                    w == start.width,
                    h == start.height,
                    answers(*match_fn, pred),
                    y < h,
                    x <= w,
                    plan@.len() == y * w + x,
                    forall|a: int, b: int|
                        #![trigger plan@[cell_index(a, b, w as int)]]
                        0 <= a < w && 0 <= b <= y && (b < y || a < x) ==> opt_text(
                            plan@[cell_index(a, b, w as int)],
                        ) == planned_region(pred, *config, start, a, b),
                    forall|a: int, b: int|
                        0 <= a < w && 0 <= b <= y && (b < y || a < x) ==> match_fn.ensures(
                            (&start.tile_at(a, b),),
                            pred(#[trigger] start.tile_at(a, b)),
                        ),
                decreases w - x,
            {
                let here = self.neighbor_matches(x, y, match_fn, Ghost(pred));
                proof {
                    assert(match_fn.ensures((&start.tile_at(x as int, y as int),), pred(start.tile_at(x as int, y as int))));
                }
                let mut entry: Option<String> = None;
                if here && !self.tiles[self.index_of(x, y)].is_empty() {
                    let mut flags = NeighborFlags::new();
                    let top = y > 0 && self.neighbor_matches(x, y - 1, match_fn, Ghost(pred));
                    let right = x + 1 < w && self.neighbor_matches(x + 1, y, match_fn, Ghost(pred));
                    let bottom = y + 1 < h && self.neighbor_matches(x, y + 1, match_fn, Ghost(pred));
                    let left = x > 0 && self.neighbor_matches(x - 1, y, match_fn, Ghost(pred));
                    if top {
                        flags = flags.with_top();
                    }
                    proof {
                        lemma_or_adds_bit(0, 1);
                    }
                    if right {
                        proof {
                            lemma_or_adds_bit(flags.0, 2);
                        }
                        flags = flags.with_right();
                    }
                    if bottom {
                        proof {
                            lemma_or_adds_bit(flags.0, 4);
                        }
                        flags = flags.with_bottom();
                    }
                    if left {
                        proof {
                            lemma_or_adds_bit(flags.0, 8);
                        }
                        flags = flags.with_left();
                    }
                    proof {
                        lemma_flag_index_bits(top, right, bottom, left);
                        assert(flags.0 == flag_index(top, right, bottom, left));
                    }
                    entry = Some(config.get_region(flags));
                }
                proof {
                    lemma_cell_index_bounds(x as int, y as int, w as int, h as int);
                }
                plan.push(entry);
                proof {
                    assert forall|a: int, b: int|
                        0 <= a < w && 0 <= b <= y && (b < y || a < x + 1) implies opt_text(
                            #[trigger] plan@[cell_index(a, b, w as int)],
                        ) == planned_region(pred, *config, start, a, b) by {
                        lemma_cell_index_bounds(a, b, w as int, (y + 1) as int);
                        if cell_index(a, b, w as int) == cell_index(x as int, y as int, w as int) {
                            lemma_cell_index_injective(a, b, x as int, y as int, w as int);
                        } else if b == y {
                            assert(a < x);
                        } else {
                            assert(b < y);
                            assert(cell_index(a, b, w as int) < y * w) by (nonlinear_arith)
                                requires
                                    0 <= a < w,
                                    0 <= b < y,
                            ;
                        }
                    }
                }
                x = x + 1;
            }
            proof {
                assert((y + 1) * w == y * w + w) by (nonlinear_arith);
            }
            y = y + 1;
        }
        // Second pass: apply the planned regions.
        let n = plan.len();
        proof {
            assert(h * w == w * h) by (nonlinear_arith);
            assert(n == start.tiles.len());
        }
        let mut i: usize = 0;
        while i < n
            invariant
                start.wf(),
                n == start.tiles.len(),
                n == plan@.len(),
                w == start.width,
                self@.wf(),
                self@.same_settings(start),
                i <= n,
                forall|k: int|
                    #![trigger self@.tiles[k]]
                    0 <= k < n ==> if k < i && plan@[k] is Some {
                        let t = self@.tiles[k];
                        let o = start.tiles[k];
                        &&& t.region_name@ == plan@[k]->0@
                        &&& t.collision == o.collision
                        &&& t.animation == o.animation
                        &&& t.flip == o.flip
                    } else {
                        self@.tiles[k] == start.tiles[k]
                    },
            decreases n - i,
        {
            if let Some(region) = &plan[i] {
                let r = region.clone();
                let tile = &mut self.tiles[i];
                tile.region_name = r;
            }
            i = i + 1;
        }
        proof {
            assert forall|a: int, b: int| start.in_bounds(a, b) implies match planned_region(
                pred,
                *config,
                start,
                a,
                b,
            ) {
                Some(region) => {
                    let t = #[trigger] self@.tile_at(a, b);
                    let o = start.tile_at(a, b);
                    &&& t.region_name@ == region
                    &&& t.collision == o.collision
                    &&& t.animation == o.animation
                    &&& t.flip == o.flip
                },
                None => self@.tile_at(a, b) == start.tile_at(a, b),
            } by {
                lemma_cell_index_bounds(a, b, w as int, start.height as int);
                assert(opt_text(plan@[cell_index(a, b, w as int)]) == planned_region(
                    pred,
                    *config,
                    start,
                    a,
                    b,
                ));
            }
        }
    }

    /// Applies auto-tiling: every non-empty tile that matches `match_fn` gets
    /// the region that `config` gives to the set of its four neighbours (in
    /// the layer) that match `match_fn`. All other tiles, and all other parts
    /// of the changed tiles, stay as they were. `match_fn` is asked about every
    /// tile, and a tile "matches" when the answer it gave was `true`.
    pub fn apply_autotile<F>(&mut self, config: &AutoTileConfig, match_fn: F)
        where
            F: Fn(&Tile) -> bool,
        requires
            old(self)@.wf(),
            is_tile_predicate(match_fn),
        ensures
            autotiled(|t: Tile| matches(match_fn, t), *config, old(self)@, final(self)@),
            forall|a: int, b: int|
                old(self)@.in_bounds(a, b) ==> match_fn.ensures(
                    (&old(self)@.tile_at(a, b),),
                    matches(match_fn, #[trigger] old(self)@.tile_at(a, b)),
                ),
    {
        let ghost pred = |t: Tile| matches(match_fn, t);
        assert forall|t: &Tile, r: bool| #[trigger] match_fn.ensures((t,), r) implies r == pred(*t) by {
            if !r && match_fn.ensures((t,), true) {
                assert(false);
            }
        }
        self.autotile_with(config, &match_fn, Ghost(pred));
    }

    /// Fills the rectangle at `(x, y)` of the given size with tiles of the
    /// base region (index 0) of `config`, then auto-tiles the layer, treating
    /// as matching every tile whose region belongs to `config`.
    pub fn fill_autotile(&mut self, x: u32, y: u32, width: u32, height: u32, config: &AutoTileConfig)
        requires
            old(self)@.wf(),
            x + width <= u32::MAX,
            y + height <= u32::MAX,
        ensures
            final(self)@.wf(),
            final(self)@.same_settings(old(self)@),
            forall|a: int, b: int|
                #![trigger final(self)@.tile_at(a, b)]
                old(self)@.in_bounds(a, b) ==> {
                    let r = filled_region(
                        *config,
                        old(self)@,
                        x as int,
                        y as int,
                        width as int,
                        height as int,
                        a,
                        b,
                    );
                    let t = final(self)@.tile_at(a, b);
                    let o = old(self)@.tile_at(a, b);
                    let inside = in_rect(a, b, x as int, y as int, width as int, height as int);
                    &&& t.region_name@ == if region_member(*config, r) && r.len() > 0 {
                        region_for(
                            *config,
                            filled_index(
                                *config,
                                old(self)@,
                                x as int,
                                y as int,
                                width as int,
                                height as int,
                                a,
                                b,
                            ) as nat,
                        )
                    } else {
                        r
                    }
                    &&& inside ==> t.collision == TileCollision::NoCollision && t.animation is None
                        && t.flip == TileFlip::NoFlip
                    &&& !inside ==> t.collision == o.collision && t.animation == o.animation && t.flip
                        == o.flip
                    &&& !inside && !(region_member(*config, r) && r.len() > 0) ==> t == o
                },
    {
        let ghost start = self@;
        let base_region = config.get_region_by_index(0);
        let base = Tile::new(base_region.as_str());
        self.fill_rect(x, y, width, height, base);
        let ghost mid = self@;
        let ghost pred = |t: Tile| region_member(*config, t.region_name@);
        let member = |t: &Tile| -> (b: bool)
            ensures
                b == region_member(*config, t.region_name@),
            { config.region_matches_impl(t) };
        self.autotile_with(config, &member, Ghost(pred));
        proof {
            assert forall|a: int, b: int| start.in_bounds(a, b) implies pred(mid.tile_at(a, b))
                == filled_member(*config, start, x as int, y as int, width as int, height as int, a, b)
                && mid.tile_at(a, b).region_name@ == filled_region(
                *config,
                start,
                x as int,
                y as int,
                width as int,
                height as int,
                a,
                b,
            ) by {}
            assert forall|a: int, b: int| start.in_bounds(a, b) implies neighbor_index(pred, mid, a, b)
                == filled_index(*config, start, x as int, y as int, width as int, height as int, a, b) by {
                if b > 0 {
                    assert(start.in_bounds(a, b - 1));
                }
                if a + 1 < start.width {
                    assert(start.in_bounds(a + 1, b));
                }
                if b + 1 < start.height {
                    assert(start.in_bounds(a, b + 1));
                }
                if a > 0 {
                    assert(start.in_bounds(a - 1, b));
                }
            }
        }
    }

    /// Sets a new tile with region `region_name` at `(x, y)`; does nothing
    /// outside the layer.
    pub fn set_region(&mut self, x: u32, y: u32, region_name: &str)
        requires
            old(self)@.wf(),
        ensures
            final(self)@.wf(),
            final(self)@.same_settings(old(self)@),
            forall|a: int, b: int|
                old(self)@.in_bounds(a, b) ==> #[trigger] final(self)@.tile_at(a, b) == if a == x
                    && b == y {
                    final(self)@.tile_at(a, b)
                } else {
                    old(self)@.tile_at(a, b)
                },
            old(self)@.in_bounds(x as int, y as int) ==> {
                let t = final(self)@.tile_at(x as int, y as int);
                &&& t.region_name@ == region_name@
                &&& t.collision == TileCollision::NoCollision
                &&& t.animation is None
                &&& t.flip == TileFlip::NoFlip
            },
    {
        let tile = Tile::new(region_name);
        self.set(x, y, tile);
        proof {
            if old(self)@.in_bounds(x as int, y as int) {
                assert forall|a: int, b: int| old(self)@.in_bounds(a, b) implies #[trigger] self@.tile_at(a, b) == if a == x
                    && b == y {
                    self@.tile_at(a, b)
                } else {
                    old(self)@.tile_at(a, b)
                } by {
                    lemma_set_cell(old(self)@, x as int, y as int, tile, a, b);
                }
                lemma_set_cell(old(self)@, x as int, y as int, tile, x as int, y as int);
            }
        }
    }
}

// =============================================================================
// TILEMAP
// =============================================================================

/// Layer `i` comes before layer `j` in drawing order: lower z-order first,
/// and insertion order among equal z-orders.
pub open spec fn draws_before(layers: Seq<TileLayer>, i: int, j: int) -> bool {
    layers[i]@.z_order < layers[j]@.z_order || (layers[i]@.z_order == layers[j]@.z_order && i < j)
}

/// `order` lists layer indices in drawing order, each at most once.
pub open spec fn is_draw_order(layers: Seq<TileLayer>, order: Seq<int>) -> bool {
    &&& order.len() == layers.len()
    &&& forall|k: int| 0 <= k < order.len() ==> 0 <= #[trigger] order[k] < layers.len()
    &&& forall|j: int, k: int|
        0 <= j < k < order.len() ==> draws_before(layers, #[trigger] order[j], #[trigger] order[k])
}

/// A drawing order lists every layer exactly once.
pub proof fn lemma_draw_order_is_permutation(layers: Seq<TileLayer>, order: Seq<int>)
    requires
        is_draw_order(layers, order),
    ensures
        order.no_duplicates(),
        forall|i: int| 0 <= i < layers.len() ==> #[trigger] order.contains(i),
{
    assert forall|j: int, k: int| 0 <= j < order.len() && 0 <= k < order.len() && j != k implies order[j]
        != order[k] by {
        if j < k {
            assert(draws_before(layers, order[j], order[k]));
        } else {
            assert(draws_before(layers, order[k], order[j]));
        }
    }
    order.unique_seq_to_set();
    let n = layers.len() as int;
    vstd::set_lib::lemma_int_range(0, n);
    let all = vstd::set_lib::set_int_range(0, n);
    assert(order.to_set().subset_of(all));
    vstd::set_lib::lemma_len_subset(order.to_set(), all);
    vstd::set_lib::lemma_subset_equality(order.to_set(), all);
    assert forall|i: int| 0 <= i < layers.len() implies #[trigger] order.contains(i) by {
        assert(all.contains(i));
        assert(order.to_set().contains(i));
    }
}

/// The index of the first layer named `name`, if any.
pub open spec fn first_named(layers: Seq<TileLayer>, name: Seq<char>) -> Option<int> {
    if exists|i: int| 0 <= i < layers.len() && #[trigger] layers[i]@.name == name {
        let i = choose|i: int|
            0 <= i < layers.len() && #[trigger] layers[i]@.name == name && forall|k: int|
                0 <= k < i ==> #[trigger] layers[k]@.name != name;
        Some(i)
    } else {
        None
    }
}

/// A grid-based tile world made of layers.
#[derive(Clone, Debug)]
pub struct Tilemap {
    /// Width in tiles.
    pub width: u32,
    /// Height in tiles.
    pub height: u32,
    /// Width of each tile in pixels.
    pub tile_width: u32,
    /// Height of each tile in pixels.
    pub tile_height: u32,
    /// The layers, in insertion order.
    layers: Vec<TileLayer>,
    /// Animation timer for animated tiles, as `f32` bits.
    pub animation_time_bits: u32,
}

/// The abstract state of a [`Tilemap`].
pub struct TilemapView {
    /// Width in tiles.
    pub width: u32,
    /// Height in tiles.
    pub height: u32,
    /// Width of each tile in pixels.
    pub tile_width: u32,
    /// Height of each tile in pixels.
    pub tile_height: u32,
    /// The layers, in insertion order.
    pub layers: Seq<TileLayer>,
    /// Animation timer, as `f32` bits.
    pub animation_time_bits: u32,
}

impl View for Tilemap {
    type V = TilemapView;

    closed spec fn view(&self) -> TilemapView {
        TilemapView {
            width: self.width,
            height: self.height,
            tile_width: self.tile_width,
            tile_height: self.tile_height,
            layers: self.layers@,
            animation_time_bits: self.animation_time_bits,
        }
    }
}

impl Tilemap {
    /// Creates a tilemap of the given size, in tiles and pixels per tile,
    /// with no layers.
    pub fn new(width: u32, height: u32, tile_width: u32, tile_height: u32) -> (m: Tilemap)
        ensures
            m@.width == width,
            m@.height == height,
            m@.tile_width == tile_width,
            m@.tile_height == tile_height,
            m@.layers == Seq::<TileLayer>::empty(),
            m@.animation_time_bits == 0,
    {
        Tilemap { width, height, tile_width, tile_height, layers: Vec::new(), animation_time_bits: 0 }
    }

    /// Creates a square tilemap with square tiles.
    pub fn square(tiles: u32, tile_size: u32) -> (m: Tilemap)
        ensures
            m@.width == tiles,
            m@.height == tiles,
            m@.tile_width == tile_size,
            m@.tile_height == tile_size,
            m@.layers == Seq::<TileLayer>::empty(),
            m@.animation_time_bits == 0,
    {
        Self::new(tiles, tiles, tile_size, tile_size)
    }

    /// Adds a layer on top of the existing ones.
    pub fn add_layer(&mut self, layer: TileLayer)
        ensures
            final(self)@.layers == old(self)@.layers.push(layer),
            final(self)@.width == old(self)@.width,
            final(self)@.height == old(self)@.height,
            final(self)@.tile_width == old(self)@.tile_width,
            final(self)@.tile_height == old(self)@.tile_height,
            final(self)@.animation_time_bits == old(self)@.animation_time_bits,
    {
        self.layers.push(layer);
    }

    /// Index of the first layer named `name`.
    fn find_layer(&self, name: &str) -> (i: Option<usize>)
        ensures
            match i {
                Some(i) => i < self@.layers.len() && first_named(self@.layers, name@) == Some(
                    i as int,
                ),
                None => first_named(self@.layers, name@) is None,
            },
    {
        let target = name.to_owned();
        let mut i: usize = 0;
        while i < self.layers.len()
            invariant
                target@ == name@,
                i <= self.layers@.len(),
                forall|k: int| 0 <= k < i ==> #[trigger] self.layers@[k]@.name != name@,
            decreases self.layers@.len() - i,
        {
            if self.layers[i].name == target {
                proof {
                    let layers = self@.layers;
                    assert(layers[i as int]@.name == name@);
                    let j = choose|j: int|
                        0 <= j < layers.len() && #[trigger] layers[j]@.name == name@ && forall|k: int|
                            0 <= k < j ==> #[trigger] layers[k]@.name != name@;
                    if j < i {
                    } else if j > i {
                        assert(layers[i as int]@.name != name@);
                    }
                }
                return Some(i);
            }
            i = i + 1;
        }
        None
    }

    /// Gets the first layer named `name`.
    pub fn layer(&self, name: &str) -> (l: Option<&TileLayer>)
        ensures
            l == match first_named(self@.layers, name@) {
                Some(i) => Some(&self@.layers[i]),
                None => None,
            },
    {
        match self.find_layer(name) {
            Some(i) => Some(&self.layers[i]),
            None => None,
        }
    }

    /// Gets the first layer named `name` for modification.
    pub fn layer_mut(&mut self, name: &str) -> (l: Option<&mut TileLayer>)
        ensures
            match first_named(old(self)@.layers, name@) {
                Some(i) => l matches Some(r) && *r == old(self)@.layers[i] && final(self)@.layers
                    == old(self)@.layers.update(i, *final(r)),
                None => l is None && final(self)@.layers == old(self)@.layers,
            },
            final(self)@.width == old(self)@.width,
            final(self)@.height == old(self)@.height,
            final(self)@.tile_width == old(self)@.tile_width,
            final(self)@.tile_height == old(self)@.tile_height,
            final(self)@.animation_time_bits == old(self)@.animation_time_bits,
    {
        match self.find_layer(name) {
            Some(i) => Some(&mut self.layers[i]),
            None => None,
        }
    }

    /// Gets the layer at position `index`.
    pub fn layer_at(&self, index: usize) -> (l: Option<&TileLayer>)
        ensures
            l == if index < self@.layers.len() {
                Some(&self@.layers[index as int])
            } else {
                None
            },
    {
        if index < self.layers.len() {
            Some(&self.layers[index])
        } else {
            None
        }
    }

    /// Gets the layer at position `index` for modification.
    pub fn layer_at_mut(&mut self, index: usize) -> (l: Option<&mut TileLayer>)
        ensures
            if index < old(self)@.layers.len() {
                l matches Some(r) && *r == old(self)@.layers[index as int] && final(self)@.layers
                    == old(self)@.layers.update(index as int, *final(r))
            } else {
                l is None && final(self)@.layers == old(self)@.layers
            },
            final(self)@.width == old(self)@.width,
            final(self)@.height == old(self)@.height,
            final(self)@.tile_width == old(self)@.tile_width,
            final(self)@.tile_height == old(self)@.tile_height,
            final(self)@.animation_time_bits == old(self)@.animation_time_bits,
    {
        if index < self.layers.len() {
            Some(&mut self.layers[index])
        } else {
            None
        }
    }

    /// Returns the number of layers.
    pub fn layer_count(&self) -> (n: usize)
        ensures
            n == self@.layers.len(),
    {
        self.layers.len()
    }

    /// Returns the layers in drawing order: by z-order, and in insertion order
    /// among layers of equal z-order.
    pub fn layers_sorted(&self) -> (sorted: Vec<&TileLayer>)
        ensures
            sorted@.len() == self@.layers.len(),
            exists|order: Seq<int>|
                is_draw_order(self@.layers, order) && forall|k: int|
                    0 <= k < sorted@.len() ==> #[trigger] sorted@[k] == &self@.layers[order[k]],
    {
        let n = self.layers.len();
        let mut order: Vec<usize> = Vec::new();
        let mut i: usize = 0;
        while i < n
            invariant
                n == self@.layers.len(),
                i <= n,
                order@.len() == i,
                forall|k: int| 0 <= k < order@.len() ==> #[trigger] order@[k] < i,
                forall|j: int, k: int|
                    0 <= j < k < order@.len() ==> draws_before(
                        self@.layers,
                        #[trigger] order@[j] as int,
                        #[trigger] order@[k] as int,
                    ),
            decreases n - i,
        {
            let z = self.layers[i].z_order;
            let mut p: usize = 0;
            while p < order.len() && self.layers[order[p]].z_order <= z
                invariant
                    n == self@.layers.len(),
                    i < n,
                    p <= order@.len(),
                    forall|k: int| 0 <= k < order@.len() ==> #[trigger] order@[k] < i,
                    forall|k: int| 0 <= k < p ==> self@.layers[#[trigger] order@[k] as int]@.z_order <= z,
                decreases order@.len() - p,
            {
                p = p + 1;
            }
            let ghost before = order@;
            order.insert(p, i);
            proof {
                assert forall|j: int, k: int| 0 <= j < k < order@.len() implies draws_before(
                    self@.layers,
                    #[trigger] order@[j] as int,
                    #[trigger] order@[k] as int,
                ) by {
                    if k < p {
                    } else if k == p {
                        assert(self@.layers[before[j] as int]@.z_order <= z);
                    } else if j < p {
                    } else if j == p {
                        let q = before[p as int] as int;
                        assert(self@.layers[q]@.z_order > z);
                        if k - 1 > p as int {
                            assert(draws_before(self@.layers, q, before[k - 1] as int));
                        }
                    } else {
                        assert(draws_before(self@.layers, before[j - 1] as int, before[k - 1] as int));
                    }
                }
            }
            i = i + 1;
        }
        let mut sorted: Vec<&TileLayer> = Vec::new();
        let mut k: usize = 0;
        while k < n
            invariant
                n == self@.layers.len(),
                n == order@.len(),
                k <= n,
                sorted@.len() == k,
                forall|m: int| 0 <= m < order@.len() ==> #[trigger] order@[m] < n,
                forall|m: int| 0 <= m < k ==> #[trigger] sorted@[m] == &self@.layers[order@[m] as int],
            decreases n - k,
        {
            sorted.push(&self.layers[order[k]]);
            k = k + 1;
        }
        let ghost witness = order@.map_values(|o: usize| o as int);
        assert(is_draw_order(self@.layers, witness));
        assert(forall|m: int| 0 <= m < sorted@.len() ==> #[trigger] sorted@[m] == &self@.layers[witness[m]]);
        sorted
    }

    /// Returns the layers in insertion order.
    pub fn layers(&self) -> (it: std::slice::Iter<'_, TileLayer>)
        ensures
            it.remaining() == self@.layers.map_values(|l: TileLayer| &l),
    {
        let it = self.layers.as_slice().iter();
        proof {
            assert(it.remaining() == self.layers@.as_ref());
        }
        it
    }

    /// The collision of the first layer whose tile at `(tx, ty)` has a
    /// collision other than `NoCollision`.
    pub fn collision_at(&self, tx: u32, ty: u32) -> (c: Option<TileCollision>)
        requires
            forall|i: int| 0 <= i < self@.layers.len() ==> (#[trigger] self@.layers[i])@.wf(),
        ensures
            c == first_collision(self@.layers, tx as int, ty as int),
    {
        assert(self@.layers.subrange(0, self@.layers.len() as int) =~= self@.layers);
        let mut i: usize = 0;
        while i < self.layers.len()
            invariant
                i <= self@.layers.len(),
                forall|k: int| 0 <= k < self@.layers.len() ==> (#[trigger] self@.layers[k])@.wf(),
                first_collision(self@.layers, tx as int, ty as int) == first_collision(
                    self@.layers.subrange(i as int, self@.layers.len() as int),
                    tx as int,
                    ty as int,
                ),
            decreases self@.layers.len() - i,
        {
            let ghost rest = self@.layers.subrange(i as int, self@.layers.len() as int);
            assert(rest.drop_first() =~= self@.layers.subrange(i + 1, self@.layers.len() as int));
            if let Some(tile) = self.layers[i].get(tx, ty) {
                if tile.collision != TileCollision::NoCollision {
                    return Some(tile.collision);
                }
            }
            i = i + 1;
        }
        None
    }

    /// Whether the first colliding layer at `(tx, ty)` has a solid collision.
    pub fn is_blocked_at(&self, tx: u32, ty: u32) -> (b: bool)
        requires
            forall|i: int| 0 <= i < self@.layers.len() ==> (#[trigger] self@.layers[i])@.wf(),
        ensures
            b == match first_collision(self@.layers, tx as int, ty as int) {
                Some(c) => c is Solid || c is Platform,
                None => false,
            },
    {
        match self.collision_at(tx, ty) {
            Some(c) => c.is_solid(),
            None => false,
        }
    }
}

/// The collision at cell `(x, y)` of the first layer in `layers` that holds
/// the cell with a collision other than `NoCollision`.
pub open spec fn first_collision(layers: Seq<TileLayer>, x: int, y: int) -> Option<TileCollision>
    decreases layers.len(),
{
    if layers.len() == 0 {
        None
    } else {
        let l = layers[0]@;
        if l.in_bounds(x, y) && l.tile_at(x, y).collision != TileCollision::NoCollision {
            Some(l.tile_at(x, y).collision)
        } else {
            first_collision(layers.drop_first(), x, y)
        }
    }
}

/// The collision at a cell is that of the first layer, in order, that holds
/// the cell with a tile whose collision is not `NoCollision`, whatever kind
/// of collision that is.
pub proof fn lemma_first_collision_is_first(layers: Seq<TileLayer>, x: int, y: int, i: int)
    requires
        0 <= i < layers.len(),
        layers[i]@.in_bounds(x, y),
        layers[i]@.tile_at(x, y).collision != TileCollision::NoCollision,
        forall|j: int|
            0 <= j < i ==> !((#[trigger] layers[j])@.in_bounds(x, y) && layers[j]@.tile_at(x, y).collision
                != TileCollision::NoCollision),
    ensures
        first_collision(layers, x, y) == Some(layers[i]@.tile_at(x, y).collision),
    decreases i,
{
    if i > 0 {
        let rest = layers.drop_first();
        assert(!(layers[0]@.in_bounds(x, y) && layers[0]@.tile_at(x, y).collision != TileCollision::NoCollision));
        assert forall|j: int| 0 <= j < i - 1 implies !((#[trigger] rest[j])@.in_bounds(x, y)
            && rest[j]@.tile_at(x, y).collision != TileCollision::NoCollision) by {
            assert(rest[j] == layers[j + 1]);
        }
        assert(rest[i - 1] == layers[i]);
        lemma_first_collision_is_first(rest, x, y, i - 1);
    }
}

/// With no layer holding the cell with a colliding tile, there is no collision there.
pub proof fn lemma_no_collision(layers: Seq<TileLayer>, x: int, y: int)
    requires
        forall|j: int|
            0 <= j < layers.len() ==> !((#[trigger] layers[j])@.in_bounds(x, y) && layers[j]@.tile_at(
                x,
                y,
            ).collision != TileCollision::NoCollision),
    ensures
        first_collision(layers, x, y) is None,
    decreases layers.len(),
{
    if layers.len() > 0 {
        let rest = layers.drop_first();
        assert(!(layers[0]@.in_bounds(x, y) && layers[0]@.tile_at(x, y).collision != TileCollision::NoCollision));
        assert forall|j: int| 0 <= j < rest.len() implies !((#[trigger] rest[j])@.in_bounds(x, y)
            && rest[j]@.tile_at(x, y).collision != TileCollision::NoCollision) by {
            assert(rest[j] == layers[j + 1]);
        }
        lemma_no_collision(rest, x, y);
    }
}

} // verus!
