//! Map objects that can be placed in the editor, and their placed instances.
//!
//! Sizes, positions, angles and colors are `f32` values held as bits.
use crate::bits::{ColorBits, Vec2Bits, HALF_BITS, ONE_F32_BITS, ZERO_BITS, white};
use vstd::prelude::*;

verus! {

/// The bits of the `f32` value `10.0`, the frame rate of a new sprite sheet.
pub const DEFAULT_FPS_BITS: u32 = 0x4120_0000;

/// Unique identifier of a placed map object.
#[derive(Clone, Copy, Debug, PartialEq, Eq, Hash, Structural)]
pub struct MapObjectId(pub u64);

/// Visual representation of a map object.
#[derive(Clone, Debug)]
pub enum ObjectVisual {
    /// Textured sprite.
    Texture { texture_name: String, tint: ColorBits },
    /// Animated sprite sheet (frames are named `{texture_name}_0`, `{texture_name}_1`, ...).
    SpriteSheet {
        texture_name: String,
        frame_count: u32,
        current_frame: u32,
        fps_bits: u32,
        tint: ColorBits,
    },
    /// A grid of tiles for map building.
    Tileset {
        texture_name: String,
        columns: u32,
        rows: u32,
        selected_tile: u32,
        ignored_tiles: Vec<u32>,
        tint: ColorBits,
    },
    /// 9-slice UI element: corners stay fixed, edges and center stretch.
    NineSlice {
        texture_name: String,
        left: u32,
        right: u32,
        top: u32,
        bottom: u32,
        tint: ColorBits,
    },
    /// Solid circle.
    Circle { radius_bits: u32, color: ColorBits },
    /// Solid rectangle.
    Rect { color: ColorBits },
    /// Line (for paths, etc.).
    Line { color: ColorBits, thickness_bits: u32 },
}

/// Value of a custom property.
#[derive(Debug)]
pub enum PropertyValue {
    String(String),
    Int(i32),
    /// An `f32`, as bits.
    Float(u32),
    Bool(bool),
    Color(ColorBits),
    Vec2(Vec2Bits),
}

impl Clone for PropertyValue {
    fn clone(&self) -> (v: Self)
        ensures
            v == *self,
    {
        match self {
            PropertyValue::String(s) => PropertyValue::String(s.clone()),
            PropertyValue::Int(i) => PropertyValue::Int(*i),
            PropertyValue::Float(f) => PropertyValue::Float(*f),
            PropertyValue::Bool(b) => PropertyValue::Bool(*b),
            PropertyValue::Color(c) => PropertyValue::Color(*c),
            PropertyValue::Vec2(p) => PropertyValue::Vec2(*p),
        }
    }
}

/// Custom property of a map object.
#[derive(Debug)]
pub struct ObjectProperty {
    /// Property name.
    pub name: String,
    /// Property value.
    pub value: PropertyValue,
    /// Whether this property is editable in the UI.
    pub editable: bool,
}

impl Clone for ObjectProperty {
    fn clone(&self) -> (p: Self)
        ensures
            p == *self,
    {
        ObjectProperty { name: self.name.clone(), value: self.value.clone(), editable: self.editable }
    }
}

impl ObjectProperty {
    fn editable_with(name: &str, value: PropertyValue) -> (p: ObjectProperty)
        ensures
            p.name@ == name@,
            p.value == value,
            p.editable,
    {
        ObjectProperty { name: name.to_owned(), value, editable: true }
    }

    /// A new editable string property.
    pub fn string(name: &str, value: &str) -> (p: ObjectProperty)
        ensures
            p.name@ == name@,
            p.value matches PropertyValue::String(s) && s@ == value@,
            p.editable,
    {
        ObjectProperty::editable_with(name, PropertyValue::String(value.to_owned()))
    }

    /// A new editable integer property.
    pub fn integer(name: &str, value: i32) -> (p: ObjectProperty)
        ensures
            p.name@ == name@,
            p.value == PropertyValue::Int(value),
            p.editable,
    {
        ObjectProperty::editable_with(name, PropertyValue::Int(value))
    }

    /// A new editable `f32` property, given by its bits.
    pub fn float(name: &str, value_bits: u32) -> (p: ObjectProperty)
        ensures
            p.name@ == name@,
            p.value == PropertyValue::Float(value_bits),
            p.editable,
    {
        ObjectProperty::editable_with(name, PropertyValue::Float(value_bits))
    }

    /// A new editable boolean property.
    pub fn bool(name: &str, value: bool) -> (p: ObjectProperty)
        ensures
            p.name@ == name@,
            p.value == PropertyValue::Bool(value),
            p.editable,
    {
        ObjectProperty::editable_with(name, PropertyValue::Bool(value))
    }

    /// A new editable color property.
    pub fn color(name: &str, value: ColorBits) -> (p: ObjectProperty)
        ensures
            p.name@ == name@,
            p.value == PropertyValue::Color(value),
            p.editable,
    {
        ObjectProperty::editable_with(name, PropertyValue::Color(value))
    }
}

/// Collision shape of a map object; lengths are `f32` bits.
#[derive(Clone, Debug)]
pub enum CollisionShape {
    Circle { radius_bits: u32 },
    Rect { width_bits: u32, height_bits: u32 },
    Polygon { points: Vec<Vec2Bits> },
}

/// Definition of a placeable map object type.
#[derive(Clone, Debug)]
pub struct MapObject {
    /// Unique name of this object type.
    pub name: String,
    /// Name shown in the editor.
    pub display_name: String,
    /// Category in the palette.
    pub category: String,
    /// Visual representation.
    pub visual: ObjectVisual,
    /// Size in world units.
    pub size: Vec2Bits,
    /// Pivot point ((0, 0) is bottom-left, (0.5, 0.5) the center).
    pub pivot: Vec2Bits,
    /// Whether this object can be rotated.
    pub rotatable: bool,
    /// Whether this object can be scaled.
    pub scalable: bool,
    /// Custom properties.
    pub properties: Vec<ObjectProperty>,
    /// Optional collision shape.
    pub collision: Option<CollisionShape>,
    /// Default z-order layer.
    pub default_layer: i32,
}

/// The center pivot `(0.5, 0.5)`.
pub open spec fn center_pivot() -> Vec2Bits {
    Vec2Bits { x_bits: HALF_BITS, y_bits: HALF_BITS }
}

/// The fields that every freshly made object type shares: named `name` and
/// shown under it, in `category`, of `size`, centered, scalable, with no
/// properties, on layer 0.
pub open spec fn fresh_object(
    o: MapObject,
    name: Seq<char>,
    category: Seq<char>,
    size: Vec2Bits,
    rotatable: bool,
) -> bool {
    &&& o.name@ == name
    &&& o.display_name@ == name
    &&& o.category@ == category
    &&& o.size == size
    &&& o.pivot == center_pivot()
    &&& o.rotatable == rotatable
    &&& o.scalable
    &&& o.properties@.len() == 0
    &&& o.default_layer == 0
}

impl MapObject {
    fn fresh(
        name: &str,
        category: String,
        visual: ObjectVisual,
        size: Vec2Bits,
        rotatable: bool,
        collision: Option<CollisionShape>,
    ) -> (o: MapObject)
        ensures
            fresh_object(o, name@, category@, size, rotatable),
            o.visual == visual,
            o.collision == collision,
    {
        MapObject {
            name: name.to_owned(),
            display_name: name.to_owned(),
            category,
            visual,
            size,
            pivot: Vec2Bits { x_bits: HALF_BITS, y_bits: HALF_BITS },
            rotatable,
            scalable: true,
            properties: Vec::new(),
            collision,
            default_layer: 0,
        }
    }

    /// A new object type drawn with a texture.
    pub fn texture(name: &str, texture_name: &str, size: Vec2Bits) -> (o: MapObject)
        ensures
            fresh_object(o, name@, "Default"@, size, true),
            o.visual matches ObjectVisual::Texture { texture_name: t, tint } && t@ == texture_name@
                && tint == white(),
            o.collision is None,
    {
        let visual = ObjectVisual::Texture { texture_name: texture_name.to_owned(), tint: ColorBits::white() };
        MapObject::fresh(name, "Default".to_owned(), visual, size, true, None)
    }

    /// A new object type drawn as an animated sprite sheet of `frame_count` frames.
    pub fn sprite_sheet(name: &str, texture_name: &str, frame_count: u32, size: Vec2Bits) -> (o: MapObject)
        ensures
            fresh_object(o, name@, "Default"@, size, true),
            o.visual matches ObjectVisual::SpriteSheet {
                texture_name: t,
                frame_count: n,
                current_frame: 0,
                fps_bits: DEFAULT_FPS_BITS,
                tint,
            } && t@ == texture_name@ && n == frame_count && tint == white(),
            o.collision is None,
    {
        let visual = ObjectVisual::SpriteSheet {
            texture_name: texture_name.to_owned(),
            frame_count,
            current_frame: 0,
            fps_bits: DEFAULT_FPS_BITS,
            tint: ColorBits::white(),
        };
        MapObject::fresh(name, "Default".to_owned(), visual, size, true, None)
    }

    /// A new object type drawn from a tileset of `columns` by `rows` tiles.
    pub fn tileset(name: &str, texture_name: &str, columns: u32, rows: u32, tile_size: Vec2Bits) -> (o: MapObject)
        ensures
            fresh_object(o, name@, "Default"@, tile_size, false),
            o.visual matches ObjectVisual::Tileset {
                texture_name: t,
                columns: c,
                rows: r,
                selected_tile: 0,
                ignored_tiles: ig,
                tint,
            } && t@ == texture_name@ && c == columns && r == rows && ig@.len() == 0 && tint == white(),
            o.collision is None,
    {
        let visual = ObjectVisual::Tileset {
            texture_name: texture_name.to_owned(),
            columns,
            rows,
            selected_tile: 0,
            ignored_tiles: Vec::new(),
            tint: ColorBits::white(),
        };
        MapObject::fresh(name, "Default".to_owned(), visual, tile_size, false, None)
    }

    /// A new 9-slice UI object type with the given fixed margins in pixels.
    pub fn nine_slice(
        name: &str,
        texture_name: &str,
        size: Vec2Bits,
        left: u32,
        right: u32,
        top: u32,
        bottom: u32,
    ) -> (o: MapObject)
        ensures
            fresh_object(o, name@, "UI"@, size, false),
            o.visual matches ObjectVisual::NineSlice {
                texture_name: t,
                left: l,
                right: r,
                top: tp,
                bottom: b,
                tint,
            } && t@ == texture_name@ && l == left && r == right && tp == top && b == bottom && tint
                == white(),
            o.collision is None,
    {
        let visual = ObjectVisual::NineSlice {
            texture_name: texture_name.to_owned(),
            left,
            right,
            top,
            bottom,
            tint: ColorBits::white(),
        };
        MapObject::fresh(name, "UI".to_owned(), visual, size, false, None)
    }

    /// A new solid rectangle object type of the given width and height, with
    /// a matching collision rectangle.
    pub fn rect(name: &str, width_bits: u32, height_bits: u32, color: ColorBits) -> (o: MapObject)
        ensures
            fresh_object(o, name@, "Default"@, Vec2Bits { x_bits: width_bits, y_bits: height_bits }, true),
            o.visual == (ObjectVisual::Rect { color }),
            o.collision == Some(CollisionShape::Rect { width_bits, height_bits }),
    {
        MapObject::fresh(
            name,
            "Default".to_owned(),
            ObjectVisual::Rect { color },
            Vec2Bits { x_bits: width_bits, y_bits: height_bits },
            true,
            Some(CollisionShape::Rect { width_bits, height_bits }),
        )
    }

    /// Sets the display name.
    pub fn with_display_name(self, name: &str) -> (o: MapObject)
        ensures
            o == (MapObject { display_name: o.display_name, ..self }),
            o.display_name@ == name@,
    {
        MapObject { display_name: name.to_owned(), ..self }
    }

    /// Sets the category.
    pub fn with_category(self, category: &str) -> (o: MapObject)
        ensures
            o == (MapObject { category: o.category, ..self }),
            o.category@ == category@,
    {
        MapObject { category: category.to_owned(), ..self }
    }

    /// Sets the pivot point.
    pub fn with_pivot(self, pivot: Vec2Bits) -> (o: MapObject)
        ensures
            o == (MapObject { pivot, ..self }),
    {
        MapObject { pivot, ..self }
    }

    /// Sets whether the object can be rotated.
    pub fn with_rotatable(self, rotatable: bool) -> (o: MapObject)
        ensures
            o == (MapObject { rotatable, ..self }),
    {
        MapObject { rotatable, ..self }
    }

    /// Sets whether the object can be scaled.
    pub fn with_scalable(self, scalable: bool) -> (o: MapObject)
        ensures
            o == (MapObject { scalable, ..self }),
    {
        MapObject { scalable, ..self }
    }

    /// Adds a custom property after the existing ones.
    pub fn with_property(self, property: ObjectProperty) -> (o: MapObject)
        ensures
            o == (MapObject { properties: o.properties, ..self }),
            o.properties@ == self.properties@.push(property),
    {
        let mut o = self;
        o.properties.push(property);
        o
    }

    /// Sets the collision shape.
    pub fn with_collision(self, collision: CollisionShape) -> (o: MapObject)
        ensures
            o == (MapObject { collision: Some(collision), ..self }),
    {
        MapObject { collision: Some(collision), ..self }
    }

    /// Sets the default layer.
    pub fn with_layer(self, layer: i32) -> (o: MapObject)
        ensures
            o == (MapObject { default_layer: layer, ..self }),
    {
        MapObject { default_layer: layer, ..self }
    }
}

/// An instance of a map object placed in the world.
#[derive(Debug)]
pub struct PlacedObject {
    /// Unique instance ID.
    pub id: MapObjectId,
    /// Name of the object type (a `MapObject::name`).
    pub object_type: String,
    /// World position.
    pub position: Vec2Bits,
    /// Rotation in radians, as `f32` bits.
    pub rotation_bits: u32,
    /// Scale multiplier.
    pub scale: Vec2Bits,
    /// Z-order layer.
    pub layer: i32,
    /// Instance-specific property overrides.
    pub property_overrides: Vec<ObjectProperty>,
    /// Whether this object is selected.
    pub selected: bool,
    /// Whether this object is locked (cannot be moved or deleted).
    pub locked: bool,
    /// Optional name of this instance.
    pub instance_name: Option<String>,
}

/// The abstract value of a [`PlacedObject`].
pub struct PlacedObjectView {
    /// Instance identifier.
    pub id: MapObjectId,
    /// Object type name.
    pub object_type: Seq<char>,
    /// World position.
    pub position: Vec2Bits,
    /// Rotation, as `f32` bits.
    pub rotation_bits: u32,
    /// Scale.
    pub scale: Vec2Bits,
    /// Layer.
    pub layer: i32,
    /// Property overrides, in order.
    pub property_overrides: Seq<ObjectProperty>,
    /// Whether selected.
    pub selected: bool,
    /// Whether locked.
    pub locked: bool,
    /// Instance name.
    pub instance_name: Option<Seq<char>>,
}

/// The view of an optional string.
pub open spec fn opt_string_view(s: Option<String>) -> Option<Seq<char>> {
    match s {
        Some(s) => Some(s@),
        None => None,
    }
}

impl View for PlacedObject {
    type V = PlacedObjectView;

    open spec fn view(&self) -> PlacedObjectView {
        PlacedObjectView {
            id: self.id,
            object_type: self.object_type@,
            position: self.position,
            rotation_bits: self.rotation_bits,
            scale: self.scale,
            layer: self.layer,
            property_overrides: self.property_overrides@,
            selected: self.selected,
            locked: self.locked,
            instance_name: opt_string_view(self.instance_name),
        }
    }
}

impl Clone for PlacedObject {
    fn clone(&self) -> (o: Self)
        ensures
            o@ == self@,
    {
        let instance_name = match &self.instance_name {
            Some(s) => Some(s.clone()),
            None => None,
        };
        let overrides = self.property_overrides.clone();
        assert(overrides@ =~= self.property_overrides@);
        PlacedObject {
            id: self.id,
            object_type: self.object_type.clone(),
            position: self.position,
            rotation_bits: self.rotation_bits,
            scale: self.scale,
            layer: self.layer,
            property_overrides: overrides,
            selected: self.selected,
            locked: self.locked,
            instance_name,
        }
    }
}

impl PlacedObject {
    /// A new placed object of type `object_type` with identifier `id` at
    /// `position`: no rotation, unit scale, layer 0, no overrides, neither
    /// selected nor locked, unnamed.
    pub fn new(id: MapObjectId, object_type: &str, position: Vec2Bits) -> (o: PlacedObject)
        ensures
            o@ == (PlacedObjectView {
                id,
                object_type: object_type@,
                position,
                rotation_bits: ZERO_BITS,
                scale: Vec2Bits { x_bits: ONE_F32_BITS, y_bits: ONE_F32_BITS },
                layer: 0,
                property_overrides: Seq::empty(),
                selected: false,
                locked: false,
                instance_name: None,
            }),
    {
        let o = PlacedObject {
            id,
            object_type: object_type.to_owned(),
            position,
            rotation_bits: ZERO_BITS,
            scale: Vec2Bits::one(),
            layer: 0,
            property_overrides: Vec::new(),
            selected: false,
            locked: false,
            instance_name: None,
        };
        assert(o@.property_overrides =~= Seq::empty());
        o
    }

    /// Sets the rotation (radians, as `f32` bits).
    pub fn with_rotation(self, rotation_bits: u32) -> (o: PlacedObject)
        ensures
            o@ == (PlacedObjectView { rotation_bits, ..self@ }),
    {
        PlacedObject { rotation_bits, ..self }
    }

    /// Sets the scale.
    pub fn with_scale(self, scale: Vec2Bits) -> (o: PlacedObject)
        ensures
            o@ == (PlacedObjectView { scale, ..self@ }),
    {
        PlacedObject { scale, ..self }
    }

    /// Sets the layer.
    pub fn with_layer(self, layer: i32) -> (o: PlacedObject)
        ensures
            o@ == (PlacedObjectView { layer, ..self@ }),
    {
        PlacedObject { layer, ..self }
    }

    /// Sets the instance name.
    pub fn with_name(self, name: &str) -> (o: PlacedObject)
        ensures
            o@ == (PlacedObjectView { instance_name: Some(name@), ..self@ }),
    {
        PlacedObject { instance_name: Some(name.to_owned()), ..self }
    }
}

} // verus!
