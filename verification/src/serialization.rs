//! The serializable form of a map: its name, version, optional size, custom
//! properties and placed objects, with conversions to and from placed objects.
use crate::bits::{ColorBits, Vec2Bits};
use crate::map_object::{MapObjectId, ObjectProperty, PlacedObject, PlacedObjectView, PropertyValue};
use crate::str_map::StrMap;
use vstd::prelude::*;

verus! {

/// Serializable property value; `f32` values are held as bits.
#[derive(Clone, Debug)]
pub enum SerializedProperty {
    String(String),
    Int(i32),
    Float(u32),
    Bool(bool),
    /// RGBA channels.
    Color([u32; 4]),
    /// x and y.
    Vec2([u32; 2]),
}

/// The property value that a serialized value stands for.
pub open spec fn value_of(p: SerializedProperty) -> PropertyValue {
    match p {
        SerializedProperty::String(s) => PropertyValue::String(s),
        SerializedProperty::Int(i) => PropertyValue::Int(i),
        SerializedProperty::Float(f) => PropertyValue::Float(f),
        SerializedProperty::Bool(b) => PropertyValue::Bool(b),
        SerializedProperty::Color(c) => PropertyValue::Color(
            ColorBits { r_bits: c[0], g_bits: c[1], b_bits: c[2], a_bits: c[3] },
        ),
        SerializedProperty::Vec2(v) => PropertyValue::Vec2(Vec2Bits { x_bits: v[0], y_bits: v[1] }),
    }
}

impl SerializedProperty {
    /// The serialized form of a property value.
    pub fn from_value(value: &PropertyValue) -> (p: SerializedProperty)
        ensures
            p == serialized_of(*value),
    {
        match value {
            PropertyValue::String(s) => SerializedProperty::String(s.clone()),
            PropertyValue::Int(i) => SerializedProperty::Int(*i),
            PropertyValue::Float(f) => SerializedProperty::Float(*f),
            PropertyValue::Bool(b) => SerializedProperty::Bool(*b),
            PropertyValue::Color(c) => SerializedProperty::Color([c.r_bits, c.g_bits, c.b_bits, c.a_bits]),
            PropertyValue::Vec2(v) => SerializedProperty::Vec2([v.x_bits, v.y_bits]),
        }
    }

    /// The property value this stands for.
    pub fn to_property_value(&self) -> (v: PropertyValue)
        ensures
            v == value_of(*self),
    {
        match self {
            SerializedProperty::String(s) => PropertyValue::String(s.clone()),
            SerializedProperty::Int(i) => PropertyValue::Int(*i),
            SerializedProperty::Float(f) => PropertyValue::Float(*f),
            SerializedProperty::Bool(b) => PropertyValue::Bool(*b),
            SerializedProperty::Color(c) => PropertyValue::Color(ColorBits::rgba(c[0], c[1], c[2], c[3])),
            SerializedProperty::Vec2(v) => PropertyValue::Vec2(Vec2Bits::new(v[0], v[1])),
        }
    }
}

/// A property value survives serialization and back.
pub proof fn lemma_property_round_trip(v: PropertyValue)
    ensures
        value_of(serialized_of(v)) == v,
{
    match v {
        PropertyValue::Color(c) => {
            let a = [c.r_bits, c.g_bits, c.b_bits, c.a_bits];
            assert(a[0] == c.r_bits && a[1] == c.g_bits && a[2] == c.b_bits && a[3] == c.a_bits);
        },
        PropertyValue::Vec2(w) => {
            let a = [w.x_bits, w.y_bits];
            assert(a[0] == w.x_bits && a[1] == w.y_bits);
        },
        _ => {},
    }
}

/// The layout of the serialized arrays: a color is stored as its red, green,
/// blue and alpha channels in that order, a vector as its x and y; reading
/// takes them back from the same places.
pub proof fn lemma_array_layout(c: ColorBits, v: Vec2Bits, a: [u32; 4], w: [u32; 2])
    ensures
        serialized_of(PropertyValue::Color(c)) matches SerializedProperty::Color(s) && s[0] == c.r_bits
            && s[1] == c.g_bits && s[2] == c.b_bits && s[3] == c.a_bits,
        serialized_of(PropertyValue::Vec2(v)) matches SerializedProperty::Vec2(s) && s[0] == v.x_bits
            && s[1] == v.y_bits,
        value_of(SerializedProperty::Color(a)) matches PropertyValue::Color(d) && d.r_bits == a[0]
            && d.g_bits == a[1] && d.b_bits == a[2] && d.a_bits == a[3],
        value_of(SerializedProperty::Vec2(w)) matches PropertyValue::Vec2(u) && u.x_bits == w[0] && u.y_bits
            == w[1],
{
    let s = [c.r_bits, c.g_bits, c.b_bits, c.a_bits];
    assert(s[0] == c.r_bits && s[1] == c.g_bits && s[2] == c.b_bits && s[3] == c.a_bits);
    let t = [v.x_bits, v.y_bits];
    assert(t[0] == v.x_bits && t[1] == v.y_bits);
}

/// Serializable form of a placed object; `f32` values are held as bits.
#[derive(Clone, Debug)]
pub struct SerializedObject {
    /// Object type name.
    pub object_type: String,
    /// Position x.
    pub x_bits: u32,
    /// Position y.
    pub y_bits: u32,
    /// Rotation in radians.
    pub rotation_bits: u32,
    /// Scale x.
    pub scale_x_bits: u32,
    /// Scale y.
    pub scale_y_bits: u32,
    /// Layer.
    pub layer: i32,
    /// Instance name.
    pub name: Option<String>,
    /// Property overrides by name.
    pub properties: StrMap<SerializedProperty>,
    /// Whether the object is locked.
    pub locked: bool,
}

/// The property overrides, by name, that a list of overrides gives when each
/// later override of a name replaces an earlier one.
pub open spec fn override_map(ps: Seq<ObjectProperty>) -> Map<Seq<char>, SerializedProperty>
    decreases ps.len(),
{
    if ps.len() == 0 {
        Map::empty()
    } else {
        override_map(ps.drop_last()).insert(ps.last().name@, serialized_of(ps.last().value))
    }
}

/// The serialized form of a property value.
pub open spec fn serialized_of(v: PropertyValue) -> SerializedProperty {
    match v {
        PropertyValue::String(s) => SerializedProperty::String(s),
        PropertyValue::Int(i) => SerializedProperty::Int(i),
        PropertyValue::Float(f) => SerializedProperty::Float(f),
        PropertyValue::Bool(b) => SerializedProperty::Bool(b),
        PropertyValue::Color(c) => SerializedProperty::Color([c.r_bits, c.g_bits, c.b_bits, c.a_bits]),
        PropertyValue::Vec2(v) => SerializedProperty::Vec2([v.x_bits, v.y_bits]),
    }
}

/// Whether `so` is the serialized form of the placed object `o`.
pub open spec fn serializes(so: SerializedObject, o: PlacedObjectView) -> bool {
    &&& so.object_type@ == o.object_type
    &&& so.x_bits == o.position.x_bits
    &&& so.y_bits == o.position.y_bits
    &&& so.rotation_bits == o.rotation_bits
    &&& so.scale_x_bits == o.scale.x_bits
    &&& so.scale_y_bits == o.scale.y_bits
    &&& so.layer == o.layer
    &&& match so.name {
        Some(n) => o.instance_name == Some(n@),
        None => o.instance_name is None,
    }
    &&& so.properties.wf()
    &&& so.properties.view() == override_map(o.property_overrides)
    &&& so.locked == o.locked
}

/// Whether `o` is the placed object, with identifier `id`, that the
/// serialized object `so` loads as: its overrides follow the serialized
/// properties in order, all editable; it is not selected.
pub open spec fn loads_as(so: SerializedObject, id: MapObjectId, o: PlacedObjectView) -> bool {
    &&& o.id == id
    &&& o.object_type == so.object_type@
    &&& o.position == (Vec2Bits { x_bits: so.x_bits, y_bits: so.y_bits })
    &&& o.rotation_bits == so.rotation_bits
    &&& o.scale == (Vec2Bits { x_bits: so.scale_x_bits, y_bits: so.scale_y_bits })
    &&& o.layer == so.layer
    &&& !o.selected
    &&& o.locked == so.locked
    &&& o.instance_name == match so.name {
        Some(n) => Some(n@),
        None => None,
    }
    &&& o.property_overrides.len() == so.properties.keys().len()
    &&& forall|i: int|
        0 <= i < o.property_overrides.len() ==> {
            let p = #[trigger] o.property_overrides[i];
            &&& p.name@ == so.properties.keys()[i]
            &&& p.value == value_of(so.properties.vals()[i])
            &&& p.editable
        }
}

/// Saving a placed object and loading it back under identifier `id` keeps
/// its type, position, rotation, scale, layer, lock and instance name; the
/// loaded object is not selected, and each of its overrides is the last
/// override of that name in the saved object.
pub proof fn lemma_object_round_trip(o: PlacedObjectView, so: SerializedObject, id: MapObjectId, back: PlacedObjectView)
    requires
        serializes(so, o),
        loads_as(so, id, back),
    ensures
        back.id == id,
        back.object_type == o.object_type,
        back.position == o.position,
        back.rotation_bits == o.rotation_bits,
        back.scale == o.scale,
        back.layer == o.layer,
        back.locked == o.locked,
        back.instance_name == o.instance_name,
        !back.selected,
        forall|i: int|
            0 <= i < back.property_overrides.len() ==> {
                let p = #[trigger] back.property_overrides[i];
                &&& override_map(o.property_overrides).contains_key(p.name@)
                &&& p.value == value_of(override_map(o.property_overrides)[p.name@])
            },
{
    so.properties.lemma_shape();
    assert forall|i: int| 0 <= i < back.property_overrides.len() implies {
        let p = #[trigger] back.property_overrides[i];
        &&& override_map(o.property_overrides).contains_key(p.name@)
        &&& p.value == value_of(override_map(o.property_overrides)[p.name@])
    } by {
        let p = back.property_overrides[i];
        assert(p.name@ == so.properties.keys()[i]);
        assert(so.properties.keys().to_set().contains(so.properties.keys()[i]));
        assert(so.properties.view()[so.properties.keys()[i]] == so.properties.vals()[i]);
    }
}

impl SerializedObject {
    /// The serialized form of a placed object.
    pub fn from_placed(obj: &PlacedObject) -> (so: SerializedObject)
        ensures
            serializes(so, obj@),
    {
        let mut properties: StrMap<SerializedProperty> = StrMap::new();
        let mut i: usize = 0;
        while i < obj.property_overrides.len()
            invariant
                i <= obj.property_overrides@.len(),
                properties.wf(),
                properties.view() == override_map(obj.property_overrides@.subrange(0, i as int)),
            decreases obj.property_overrides@.len() - i,
        {
            let prop = &obj.property_overrides[i];
            let v = SerializedProperty::from_value(&prop.value);
            proof {
                let pre = obj.property_overrides@.subrange(0, i + 1);
                assert(pre.drop_last() =~= obj.property_overrides@.subrange(0, i as int));
                assert(v == serialized_of(prop.value));
            }
            properties.insert(prop.name.clone(), v);
            i = i + 1;
        }
        proof {
            assert(obj.property_overrides@.subrange(0, i as int) =~= obj.property_overrides@);
        }
        let name = match &obj.instance_name {
            Some(n) => Some(n.clone()),
            None => None,
        };
        SerializedObject {
            object_type: obj.object_type.clone(),
            x_bits: obj.position.x_bits,
            y_bits: obj.position.y_bits,
            rotation_bits: obj.rotation_bits,
            scale_x_bits: obj.scale.x_bits,
            scale_y_bits: obj.scale.y_bits,
            layer: obj.layer,
            name,
            properties,
            locked: obj.locked,
        }
    }

    /// The placed object this loads as, with identifier `id`.
    pub fn to_placed(&self, id: MapObjectId) -> (o: PlacedObject)
        requires
            self.properties.wf(),
        ensures
            loads_as(*self, id, o@),
    {
        let mut obj = PlacedObject::new(
            id,
            self.object_type.as_str(),
            Vec2Bits::new(self.x_bits, self.y_bits),
        ).with_rotation(self.rotation_bits).with_scale(Vec2Bits::new(self.scale_x_bits, self.scale_y_bits)).with_layer(
            self.layer,
        );
        obj.locked = self.locked;
        obj.instance_name = match &self.name {
            Some(n) => Some(n.clone()),
            None => None,
        };
        let mut i: usize = 0;
        while i < self.properties.len()
            invariant
                i <= self.properties.keys().len(),
                self.properties.wf(),
                obj@.id == id,
                obj@.object_type == self.object_type@,
                obj@.position == (Vec2Bits { x_bits: self.x_bits, y_bits: self.y_bits }),
                obj@.rotation_bits == self.rotation_bits,
                obj@.scale == (Vec2Bits { x_bits: self.scale_x_bits, y_bits: self.scale_y_bits }),
                obj@.layer == self.layer,
                !obj@.selected,
                obj@.locked == self.locked,
                obj@.instance_name == match self.name {
                    Some(n) => Some(n@),
                    None => None,
                },
                obj@.property_overrides.len() == i,
                forall|j: int|
                    0 <= j < i ==> {
                        let p = #[trigger] obj@.property_overrides[j];
                        &&& p.name@ == self.properties.keys()[j]
                        &&& p.value == value_of(self.properties.vals()[j])
                        &&& p.editable
                    },
            decreases self.properties.keys().len() - i,
        {
            let name = self.properties.key_at(i).clone();
            let value = self.properties.value_at(i).to_property_value();
            obj.property_overrides.push(ObjectProperty { name, value, editable: true });
            i = i + 1;
        }
        obj
    }
}

/// Serializable map data.
#[derive(Clone, Debug)]
pub struct MapData {
    /// Map name.
    pub name: String,
    /// Format version (for migration).
    pub version: u32,
    /// Map width, as `f32` bits, for bounded maps.
    pub width_bits: Option<u32>,
    /// Map height, as `f32` bits, for bounded maps.
    pub height_bits: Option<u32>,
    /// The placed objects.
    pub objects: Vec<SerializedObject>,
    /// Custom map properties.
    pub properties: StrMap<String>,
}

/// Whether `d` is a new map named `name`: version 1, no size, no objects, no properties.
pub open spec fn fresh_map(d: MapData, name: Seq<char>) -> bool {
    &&& d.name@ == name
    &&& d.version == 1
    &&& d.width_bits is None
    &&& d.height_bits is None
    &&& d.objects@.len() == 0
    &&& d.properties.wf()
    &&& d.properties.view() == Map::<Seq<char>, String>::empty()
}

impl MapData {
    /// A new empty map with the given name.
    pub fn new(name: &str) -> (d: MapData)
        ensures
            fresh_map(d, name@),
    {
        MapData {
            name: name.to_owned(),
            version: 1,
            width_bits: None,
            height_bits: None,
            objects: Vec::new(),
            properties: StrMap::new(),
        }
    }

    /// Sets the map size (as `f32` bits).
    pub fn with_size(self, width_bits: u32, height_bits: u32) -> (d: MapData)
        ensures
            d == (MapData { width_bits: Some(width_bits), height_bits: Some(height_bits), ..self }),
    {
        MapData { width_bits: Some(width_bits), height_bits: Some(height_bits), ..self }
    }

    /// Sets a custom property, replacing any of the same key.
    pub fn with_property(self, key: &str, value: &str) -> (d: MapData)
        requires
            self.properties.wf(),
        ensures
            d.properties.wf(),
            d.properties.view().dom() == self.properties.view().dom().insert(key@),
            d.properties.view()[key@]@ == value@,
            forall|k: Seq<char>| k != key@ ==> d.properties.view()[k] == self.properties.view()[k],
            d == (MapData { properties: d.properties, ..self }),
    {
        let mut d = self;
        d.properties.insert(key.to_owned(), value.to_owned());
        d
    }

    /// The serialized forms of a list of placed objects, in order.
    pub fn from_placed_objects(objects: &[PlacedObject]) -> (r: Vec<SerializedObject>)
        ensures
            r@.len() == objects@.len(),
            forall|i: int| 0 <= i < r@.len() ==> serializes(#[trigger] r@[i], objects@[i]@),
    {
        let mut r: Vec<SerializedObject> = Vec::new();
        let mut i: usize = 0;
        while i < objects.len()
            invariant
                i <= objects@.len(),
                r@.len() == i,
                forall|j: int| 0 <= j < i ==> serializes(#[trigger] r@[j], objects@[j]@),
            decreases objects@.len() - i,
        {
            r.push(SerializedObject::from_placed(&objects[i]));
            i = i + 1;
        }
        r
    }

    /// The placed objects this map loads as, the `i`-th with identifier `ids[i]`.
    pub fn to_placed_objects(&self, ids: &[MapObjectId]) -> (r: Vec<PlacedObject>)
        requires
            ids@.len() == self.objects@.len(),
            forall|i: int| 0 <= i < self.objects@.len() ==> (#[trigger] self.objects@[i]).properties.wf(),
        ensures
            r@.len() == self.objects@.len(),
            forall|i: int| 0 <= i < r@.len() ==> loads_as(self.objects@[i], ids@[i], #[trigger] r@[i]@),
    {
        let mut r: Vec<PlacedObject> = Vec::new();
        let mut i: usize = 0;
        while i < self.objects.len()
            invariant
                i <= self.objects@.len(),
                ids@.len() == self.objects@.len(),
                forall|j: int| 0 <= j < self.objects@.len() ==> (#[trigger] self.objects@[j]).properties.wf(),
                r@.len() == i,
                forall|j: int| 0 <= j < i ==> loads_as(self.objects@[j], ids@[j], #[trigger] r@[j]@),
            decreases self.objects@.len() - i,
        {
            r.push(self.objects[i].to_placed(ids[i]));
            i = i + 1;
        }
        r
    }
}

impl Default for MapData {
    /// A new empty map named "Untitled".
    fn default() -> (d: MapData)
        ensures
            fresh_map(d, "Untitled"@),
    {
        MapData::new("Untitled")
    }
}

} // verus!
