//! Components of entities: position and orientation, velocity, sprites,
//! lifetimes and markers. Lengths, angles and colors are `f32` values held as
//! bits; the arithmetic on them lives outside this library.
use crate::bits::{ColorBits, ONE_F32_BITS, Vec2Bits, white};
use vstd::prelude::*;
use vstd::std_specs::convert::FromSpecImpl;

verus! {

/// Marker component for entities that should be rendered.
#[derive(Clone, Copy, Debug, Default, PartialEq, Eq, Structural)]
pub struct Visible;

/// Marker component for entities that should be despawned at the end of the frame.
#[derive(Clone, Copy, Debug, Default, PartialEq, Eq, Structural)]
pub struct Despawn;

/// Position, rotation and scale of an entity.
#[derive(Clone, Copy, Debug, PartialEq, Eq, Structural)]
pub struct Transform {
    /// World position in pixels.
    pub position: Vec2Bits,
    /// Rotation in radians, counter-clockwise from +x, as `f32` bits.
    pub rotation_bits: u32,
    /// Scale multiplier (1 keeps the size unchanged).
    pub scale: Vec2Bits,
}

/// The transform at `position` with no rotation and unit scale.
pub open spec fn placed_at(position: Vec2Bits) -> Transform {
    Transform {
        position,
        rotation_bits: 0,
        scale: Vec2Bits { x_bits: ONE_F32_BITS, y_bits: ONE_F32_BITS },
    }
}

impl Default for Transform {
    /// At the origin, no rotation, unit scale.
    fn default() -> (t: Transform)
        ensures
            t == placed_at(Vec2Bits { x_bits: 0, y_bits: 0 }),
    {
        Transform::from_position(Vec2Bits::zero())
    }
}

impl Transform {
    /// A transform at `position` with no rotation and unit scale.
    pub fn from_position(position: Vec2Bits) -> (t: Transform)
        ensures
            t == placed_at(position),
    {
        Transform { position, rotation_bits: 0, scale: Vec2Bits::one() }
    }

    /// A transform at `(x, y)` (as `f32` bits) with no rotation and unit scale.
    pub fn from_xy(x_bits: u32, y_bits: u32) -> (t: Transform)
        ensures
            t == placed_at(Vec2Bits { x_bits, y_bits }),
    {
        Transform::from_position(Vec2Bits::new(x_bits, y_bits))
    }

    /// Sets the rotation (radians, as `f32` bits).
    pub fn with_rotation(self, rotation_bits: u32) -> (t: Transform)
        ensures
            t == (Transform { rotation_bits, ..self }),
    {
        Transform { rotation_bits, ..self }
    }

    /// Sets the scale.
    pub fn with_scale(self, scale: Vec2Bits) -> (t: Transform)
        ensures
            t == (Transform { scale, ..self }),
    {
        Transform { scale, ..self }
    }

    /// Sets the same scale on both axes.
    pub fn with_uniform_scale(self, scale_bits: u32) -> (t: Transform)
        ensures
            t == (Transform { scale: Vec2Bits { x_bits: scale_bits, y_bits: scale_bits }, ..self }),
    {
        Transform { scale: Vec2Bits::new(scale_bits, scale_bits), ..self }
    }
}

/// Linear velocity of an entity, in pixels per second.
#[derive(Clone, Copy, Debug, PartialEq, Eq, Structural)]
pub struct Velocity(pub Vec2Bits);

impl Velocity {
    /// The velocity `(x, y)` (as `f32` bits).
    pub fn new(x_bits: u32, y_bits: u32) -> (v: Velocity)
        ensures
            v == Velocity(Vec2Bits { x_bits, y_bits }),
    {
        Velocity(Vec2Bits::new(x_bits, y_bits))
    }
}

impl Default for Velocity {
    /// At rest.
    fn default() -> (v: Velocity)
        ensures
            v == Velocity(Vec2Bits { x_bits: 0, y_bits: 0 }),
    {
        Velocity(Vec2Bits::zero())
    }
}

impl From<Vec2Bits> for Velocity {
    fn from(v: Vec2Bits) -> (r: Velocity)
        ensures
            r == Velocity(v),
    {
        Velocity(v)
    }
}

impl FromSpecImpl<Vec2Bits> for Velocity {
    open spec fn obeys_from_spec() -> bool {
        true
    }

    open spec fn from_spec(v: Vec2Bits) -> Velocity {
        Velocity(v)
    }
}

/// Shape of a sprite; lengths are `f32` bits.
#[derive(Clone, Copy, Debug, PartialEq)]
pub enum SpriteShape {
    /// Circle of the given radius.
    Circle { radius_bits: u32 },
    /// Rectangle of the given size (width, height).
    Rect { size: Vec2Bits },
    /// Line from the entity's position to position + `end_offset`.
    Line { end_offset: Vec2Bits },
    /// A region of the texture atlas, drawn at `size` in world units.
    Texture { region_name: &'static str, size: Vec2Bits },
}

/// How an entity is drawn: shape, color (or tint) and draw order.
#[derive(Clone, Copy, Debug, PartialEq)]
pub struct Sprite {
    /// The shape.
    pub shape: SpriteShape,
    /// The color, or the tint of a texture.
    pub color: ColorBits,
    /// Draw order (higher is drawn on top).
    pub z_order: i32,
}

/// The bits of the `f32` value `10.0`, the radius of the default sprite.
pub const DEFAULT_SPRITE_RADIUS_BITS: u32 = 0x4120_0000;

impl Sprite {
    /// A circle of the given radius.
    pub fn circle(radius_bits: u32, color: ColorBits) -> (s: Sprite)
        ensures
            s == (Sprite { shape: SpriteShape::Circle { radius_bits }, color, z_order: 0 }),
    {
        Sprite { shape: SpriteShape::Circle { radius_bits }, color, z_order: 0 }
    }

    /// A rectangle of the given width and height.
    pub fn rect(width_bits: u32, height_bits: u32, color: ColorBits) -> (s: Sprite)
        ensures
            s == (Sprite {
                shape: SpriteShape::Rect { size: Vec2Bits { x_bits: width_bits, y_bits: height_bits } },
                color,
                z_order: 0,
            }),
    {
        Sprite { shape: SpriteShape::Rect { size: Vec2Bits::new(width_bits, height_bits) }, color, z_order: 0 }
    }

    /// A line from the entity's position to position + `end_offset`.
    pub fn line(end_offset: Vec2Bits, color: ColorBits) -> (s: Sprite)
        ensures
            s == (Sprite { shape: SpriteShape::Line { end_offset }, color, z_order: 0 }),
    {
        Sprite { shape: SpriteShape::Line { end_offset }, color, z_order: 0 }
    }

    /// A textured sprite from the atlas region `region_name`, drawn at `size`,
    /// tinted by `tint` (white for no tint).
    pub fn texture(region_name: &'static str, size: Vec2Bits, tint: ColorBits) -> (s: Sprite)
        ensures
            s == (Sprite { shape: SpriteShape::Texture { region_name, size }, color: tint, z_order: 0 }),
    {
        Sprite { shape: SpriteShape::Texture { region_name, size }, color: tint, z_order: 0 }
    }

    /// Sets the draw order.
    pub fn with_z_order(self, z_order: i32) -> (s: Sprite)
        ensures
            s == (Sprite { z_order, ..self }),
    {
        Sprite { z_order, ..self }
    }

    /// Sets the color.
    pub fn with_color(self, color: ColorBits) -> (s: Sprite)
        ensures
            s == (Sprite { color, ..self }),
    {
        Sprite { color, ..self }
    }
}

impl Default for Sprite {
    /// A white circle of radius 10.
    fn default() -> (s: Sprite)
        ensures
            s == (Sprite {
                shape: SpriteShape::Circle { radius_bits: DEFAULT_SPRITE_RADIUS_BITS },
                color: white(),
                z_order: 0,
            }),
    {
        Sprite::circle(DEFAULT_SPRITE_RADIUS_BITS, ColorBits::white())
    }
}

/// Remaining lifetime of an entity, in seconds, as `f32` bits.
#[derive(Clone, Copy, Debug, PartialEq, Eq, Structural)]
pub struct Lifetime(pub u32);

impl Lifetime {
    /// A lifetime of the given seconds (as `f32` bits).
    pub fn new(seconds_bits: u32) -> (l: Lifetime)
        ensures
            l == Lifetime(seconds_bits),
    {
        Lifetime(seconds_bits)
    }
}

} // verus!
