//! Collision layer masks, collider components and collision events.
//!
//! Lengths and positions are `f32` values held as their bits; the geometric
//! tests on them live outside this library.
use std::ops::{BitAnd, BitOr};
use vstd::prelude::*;
use vstd::std_specs::ops::{BitAndSpecImpl, BitOrSpecImpl};
use crate::bits::{ONE_F32_BITS, Vec2Bits};
use crate::entity::Entity;

verus! {

/// A collision layer mask: a set of up to 32 layers, one per bit.
///
/// Combine layers with `|`: `PLAYER | ENEMY`.
#[derive(Clone, Copy, Debug, Default, PartialEq, Eq, Hash, Structural)]
pub struct CollisionLayer(pub u32);

impl CollisionLayer {
    /// No collision layer (collides with nothing).
    pub fn none() -> (l: CollisionLayer)
        ensures
            l.0 == 0,
    {
        CollisionLayer(0)
    }

    /// All collision layers.
    pub fn all() -> (l: CollisionLayer)
        ensures
            l.0 == u32::MAX,
    {
        CollisionLayer(u32::MAX)
    }

    /// The layer of bit `bit` (0 to 31).
    pub fn new(bit: u32) -> (l: CollisionLayer)
        requires
            bit < 32,
        ensures
            l.0 == 1u32 << bit,
    {
        CollisionLayer(1u32 << bit)
    }

    /// Whether this mask shares a layer with `other`.
    pub fn overlaps(self, other: CollisionLayer) -> (b: bool)
        ensures
            b == (self.0 & other.0 != 0),
    {
        (self.0 & other.0) != 0
    }

    /// Whether this mask holds every layer of `layer`.
    pub fn contains(self, layer: CollisionLayer) -> (b: bool)
        ensures
            b == (self.0 & layer.0 == layer.0),
    {
        (self.0 & layer.0) == layer.0
    }
}

impl BitOr for CollisionLayer {
    type Output = CollisionLayer;

    fn bitor(self, rhs: CollisionLayer) -> (l: CollisionLayer)
        ensures
            l.0 == self.0 | rhs.0,
    {
        CollisionLayer(self.0 | rhs.0)
    }
}

impl BitOrSpecImpl for CollisionLayer {
    open spec fn obeys_bitor_spec() -> bool {
        true
    }

    open spec fn bitor_req(self, rhs: CollisionLayer) -> bool {
        true
    }

    open spec fn bitor_spec(self, rhs: CollisionLayer) -> CollisionLayer {
        CollisionLayer(self.0 | rhs.0)
    }
}

impl BitAnd for CollisionLayer {
    type Output = CollisionLayer;

    fn bitand(self, rhs: CollisionLayer) -> (l: CollisionLayer)
        ensures
            l.0 == self.0 & rhs.0,
    {
        CollisionLayer(self.0 & rhs.0)
    }
}

impl BitAndSpecImpl for CollisionLayer {
    open spec fn obeys_bitand_spec() -> bool {
        true
    }

    open spec fn bitand_req(self, rhs: CollisionLayer) -> bool {
        true
    }

    open spec fn bitand_spec(self, rhs: CollisionLayer) -> CollisionLayer {
        CollisionLayer(self.0 & rhs.0)
    }
}

/// A union of masks contains each of them.
pub proof fn lemma_union_contains(a: CollisionLayer, b: CollisionLayer)
    ensures
        (a.0 | b.0) & a.0 == a.0,
        (a.0 | b.0) & b.0 == b.0,
{
    let x = a.0;
    let y = b.0;
    assert((x | y) & x == x && (x | y) & y == y) by (bit_vector);
}

/// Overlap is symmetric, and a nonempty mask overlaps every mask containing it.
pub proof fn lemma_overlap_laws(a: CollisionLayer, b: CollisionLayer)
    ensures
        (a.0 & b.0 != 0) == (b.0 & a.0 != 0),
        a.0 != 0 && b.0 & a.0 == a.0 ==> a.0 & b.0 != 0,
{
    let x = a.0;
    let y = b.0;
    assert((x & y != 0) == (y & x != 0)) by (bit_vector);
    assert(x != 0 && y & x == x ==> x & y != 0) by (bit_vector);
}

/// Layers of distinct bits do not overlap; a layer overlaps itself.
pub proof fn lemma_distinct_bits(i: u32, j: u32)
    requires
        i < 32,
        j < 32,
    ensures
        ((1u32 << i) & (1u32 << j) != 0) == (i == j),
{
    assert(i < 32 && j < 32 ==> (((1u32 << i) & (1u32 << j) != 0) == (i == j))) by (bit_vector);
}

/// Shape used for collision detection; lengths are `f32` values held as bits.
#[derive(Clone, Copy, Debug, PartialEq, Eq, Structural)]
pub enum ColliderShape {
    /// Circle collider with radius.
    Circle { radius_bits: u32 },
    /// Axis-aligned bounding box, by its half extents.
    AABB { half_extents_bits: Vec2Bits },
    /// Point collider (useful for bullets, etc).
    Point,
}

impl ColliderShape {
    /// A circle shape of the given radius.
    pub fn circle(radius_bits: u32) -> (s: ColliderShape)
        ensures
            s == (ColliderShape::Circle { radius_bits }),
    {
        ColliderShape::Circle { radius_bits }
    }

    /// A point shape.
    pub fn point() -> (s: ColliderShape)
        ensures
            s == ColliderShape::Point,
    {
        ColliderShape::Point
    }
}

/// Component that enables collision detection for an entity.
#[derive(Clone, Copy, Debug, PartialEq, Eq, Structural)]
pub struct Collider {
    /// The collision shape.
    pub shape: ColliderShape,
    /// The layers this collider belongs to.
    pub layer: CollisionLayer,
    /// The layers this collider can collide with.
    pub mask: CollisionLayer,
    /// Offset from the entity's position, as `f32` bits.
    pub offset_bits: Vec2Bits,
    /// Whether this is a trigger (detection only, no physics response).
    pub is_trigger: bool,
    /// Whether this collider is currently enabled.
    pub enabled: bool,
}

/// A collider of the given shape with the defaults: every layer, no offset,
/// not a trigger, enabled.
pub open spec fn default_collider(shape: ColliderShape) -> Collider {
    Collider {
        shape,
        layer: CollisionLayer(u32::MAX),
        mask: CollisionLayer(u32::MAX),
        offset_bits: Vec2Bits { x_bits: 0, y_bits: 0 },
        is_trigger: false,
        enabled: true,
    }
}

/// Whether two colliders may interact: both enabled, and each one's layers
/// meet the other's mask.
pub open spec fn colliders_interact(a: Collider, b: Collider) -> bool {
    &&& a.enabled
    &&& b.enabled
    &&& a.layer.0 & b.mask.0 != 0
    &&& b.layer.0 & a.mask.0 != 0
}

impl Collider {
    fn with_shape(shape: ColliderShape) -> (c: Collider)
        ensures
            c == default_collider(shape),
    {
        Collider {
            shape,
            layer: CollisionLayer::all(),
            mask: CollisionLayer::all(),
            offset_bits: Vec2Bits { x_bits: 0, y_bits: 0 },
            is_trigger: false,
            enabled: true,
        }
    }

    /// A circle collider of the given radius.
    pub fn circle(radius_bits: u32) -> (c: Collider)
        ensures
            c == default_collider(ColliderShape::Circle { radius_bits }),
    {
        Collider::with_shape(ColliderShape::circle(radius_bits))
    }

    /// A point collider.
    pub fn point() -> (c: Collider)
        ensures
            c == default_collider(ColliderShape::Point),
    {
        Collider::with_shape(ColliderShape::point())
    }

    /// Sets the layers this collider belongs to.
    pub fn with_layer(self, layer: CollisionLayer) -> (c: Collider)
        ensures
            c == (Collider { layer, ..self }),
    {
        Collider { layer, ..self }
    }

    /// Sets the layers this collider can interact with.
    pub fn collides_with(self, mask: CollisionLayer) -> (c: Collider)
        ensures
            c == (Collider { mask, ..self }),
    {
        Collider { mask, ..self }
    }

    /// Sets the offset from the entity's position.
    pub fn with_offset(self, offset_bits: Vec2Bits) -> (c: Collider)
        ensures
            c == (Collider { offset_bits, ..self }),
    {
        Collider { offset_bits, ..self }
    }

    /// Makes this collider a trigger (detection only, no physics response).
    pub fn as_trigger(self) -> (c: Collider)
        ensures
            c == (Collider { is_trigger: true, ..self }),
    {
        Collider { is_trigger: true, ..self }
    }

    /// Enables or disables the collider.
    pub fn set_enabled(&mut self, enabled: bool)
        ensures
            *final(self) == (Collider { enabled, ..*old(self) }),
    {
        self.enabled = enabled;
    }

    /// Whether this collider can interact with `other`, by their layers.
    pub fn can_collide_with(&self, other: &Collider) -> (b: bool)
        ensures
            b == colliders_interact(*self, *other),
    {
        self.enabled && other.enabled && self.layer.overlaps(other.mask) && other.layer.overlaps(
            self.mask,
        )
    }
}

impl Default for Collider {
    /// A circle collider of radius `1.0`.
    fn default() -> (c: Collider)
        ensures
            c == default_collider(ColliderShape::Circle { radius_bits: ONE_F32_BITS }),
    {
        Collider::circle(ONE_F32_BITS)
    }
}

/// Whether two colliders may interact does not depend on their order.
pub proof fn lemma_interaction_symmetric(a: Collider, b: Collider)
    ensures
        colliders_interact(a, b) == colliders_interact(b, a),
{
    lemma_overlap_laws(a.layer, b.mask);
    lemma_overlap_laws(b.layer, a.mask);
}

/// Masks decide: two enabled colliders interact exactly when the layers of
/// each meet the mask of the other. A mask that excludes the other's layers
/// rules interaction out, whatever layers the two share.
pub proof fn lemma_masks_decide(a: Collider, b: Collider)
    ensures
        a.layer.0 & b.mask.0 == 0 ==> !colliders_interact(a, b),
        b.layer.0 & a.mask.0 == 0 ==> !colliders_interact(a, b),
        a.enabled && b.enabled && a.layer.0 & b.mask.0 != 0 && b.layer.0 & a.mask.0 != 0
            ==> colliders_interact(a, b),
        colliders_interact(a, b) ==> a.enabled && b.enabled,
{
}

/// A disabled collider interacts with nothing.
pub proof fn lemma_disabled_interacts_with_nothing(a: Collider, b: Collider)
    requires
        !a.enabled,
    ensures
        !colliders_interact(a, b),
        !colliders_interact(b, a),
{
}

/// Information about a collision between two entities; the geometric values
/// are `f32` values held as bits.
#[derive(Clone, Copy, Debug)]
pub struct CollisionEvent {
    /// First entity in the collision.
    pub entity_a: Entity,
    /// Second entity in the collision.
    pub entity_b: Entity,
    /// Penetration depth, as `f32` bits.
    pub penetration_bits: u32,
    /// Normal from A to B, as `f32` bits.
    pub normal_bits: Vec2Bits,
    /// Contact point in world space, as `f32` bits.
    pub contact_bits: Vec2Bits,
}

/// The participant of the collision that is not `entity`, if `entity` is one.
pub open spec fn other_participant(a: Entity, b: Entity, entity: Entity) -> Option<Entity> {
    if a == entity {
        Some(b)
    } else if b == entity {
        Some(a)
    } else {
        None
    }
}

impl CollisionEvent {
    /// Whether `entity` takes part in this collision.
    pub fn involves(&self, entity: Entity) -> (b: bool)
        ensures
            b == (self.entity_a == entity || self.entity_b == entity),
    {
        self.entity_a == entity || self.entity_b == entity
    }

    /// The other participant, given one of them.
    pub fn other(&self, entity: Entity) -> (o: Option<Entity>)
        ensures
            o == other_participant(self.entity_a, self.entity_b, entity),
    {
        if self.entity_a == entity {
            Some(self.entity_b)
        } else if self.entity_b == entity {
            Some(self.entity_a)
        } else {
            None
        }
    }
}

/// An entity has an other participant exactly when it takes part, and the
/// other participant's other participant is the entity itself.
pub proof fn lemma_other_participant(a: Entity, b: Entity, e: Entity)
    ensures
        other_participant(a, b, e) is Some <==> (a == e || b == e),
        other_participant(a, b, e) matches Some(o) ==> other_participant(a, b, o) == Some(e),
{
}

} // verus!
