//! System parameters: access descriptions and resource accessors.
use std::any::TypeId;
use std::ops::{Deref, DerefMut};
use vstd::prelude::*;

verus! {

/// A `TypeId` identifies a type; it is carried through as an opaque value.
#[verifier::external_type_specification]
#[verifier::external_body]
pub struct ExTypeId(TypeId);

/// Equality of type identifiers: `std::any::TypeId`'s `==` holds exactly
/// when both identify the same type, that is when they are the same value.
pub assume_specification[ <TypeId as PartialEq>::eq ](a: &TypeId, b: &TypeId) -> (r: bool)
    ensures
        r == (*a == *b),
;

/// Cloning a type identifier: `TypeId` is `Copy`, and its clone is a copy.
pub assume_specification[ <TypeId as Clone>::clone ](a: &TypeId) -> (r: TypeId)
    ensures
        r == *a,
;

/// Describes how a system parameter accesses data.
#[derive(Debug, Clone, PartialEq, Eq)]
pub enum Access {
    /// Read-only access to a resource.
    ReadResource(TypeId),
    /// Mutable access to a resource.
    WriteResource(TypeId),
    /// Read-only access to a component type.
    ReadComponent(TypeId),
    /// Mutable access to a component type.
    WriteComponent(TypeId),
    /// Access to the entire world.
    World,
}

/// Two accesses conflict when either is whole-world access, or both touch
/// the same resource (or the same component type) and at least one writes it.
pub open spec fn access_conflict(a: Access, b: Access) -> bool {
    match (a, b) {
        (Access::World, _) => true,
        (_, Access::World) => true,
        (Access::WriteResource(x), Access::WriteResource(y)) => x == y,
        (Access::ReadResource(x), Access::WriteResource(y)) => x == y,
        (Access::WriteResource(x), Access::ReadResource(y)) => x == y,
        (Access::WriteComponent(x), Access::WriteComponent(y)) => x == y,
        (Access::ReadComponent(x), Access::WriteComponent(y)) => x == y,
        (Access::WriteComponent(x), Access::ReadComponent(y)) => x == y,
        _ => false,
    }
}

impl Access {
    /// Returns true if this access conflicts with another.
    pub fn conflicts_with(&self, other: &Access) -> (b: bool)
        ensures
            b == access_conflict(*self, *other),
    {
        match (self, other) {
            (Access::World, _) => true,
            (_, Access::World) => true,
            (Access::WriteResource(a), Access::WriteResource(b)) => *a == *b,
            (Access::ReadResource(a), Access::WriteResource(b)) => *a == *b,
            (Access::WriteResource(a), Access::ReadResource(b)) => *a == *b,
            (Access::WriteComponent(a), Access::WriteComponent(b)) => *a == *b,
            (Access::ReadComponent(a), Access::WriteComponent(b)) => *a == *b,
            (Access::WriteComponent(a), Access::ReadComponent(b)) => *a == *b,
            _ => false,
        }
    }
}

/// Conflict is symmetric; reads never conflict with reads; whole-world access
/// conflicts with everything, itself included.
pub proof fn lemma_conflict_laws(a: Access, b: Access)
    ensures
        access_conflict(a, b) == access_conflict(b, a),
        (a is ReadResource || a is ReadComponent) && (b is ReadResource || b is ReadComponent)
            ==> !access_conflict(a, b),
        a is World ==> access_conflict(a, b),
        access_conflict(a, a) == !(a is ReadResource || a is ReadComponent),
{
}

/// What an access other than whole-world access touches: whether it is a
/// resource (rather than a component type), and the type.
pub open spec fn touched(a: Access) -> Option<(bool, TypeId)> {
    match a {
        Access::ReadResource(t) => Some((true, t)),
        Access::WriteResource(t) => Some((true, t)),
        Access::ReadComponent(t) => Some((false, t)),
        Access::WriteComponent(t) => Some((false, t)),
        Access::World => None,
    }
}

/// Whether an access may write what it touches.
pub open spec fn writes(a: Access) -> bool {
    a is WriteResource || a is WriteComponent || a is World
}

/// Two accesses other than whole-world access conflict exactly when they
/// touch the same thing (the same resource, or the same component type) and
/// at least one of them writes it. In particular accesses to different types,
/// or a resource and a component type, never conflict.
pub proof fn lemma_conflict_is_shared_write(a: Access, b: Access)
    requires
        !(a is World),
        !(b is World),
    ensures
        access_conflict(a, b) <==> touched(a) == touched(b) && (writes(a) || writes(b)),
        touched(a) != touched(b) ==> !access_conflict(a, b),
{
}

/// Read-only access to a resource.
pub struct Res<'w, T: 'static> {
    value: &'w T,
}

impl<'w, T: 'static> View for Res<'w, T> {
    type V = T;

    closed spec fn view(&self) -> T {
        *self.value
    }
}

impl<'w, T: 'static> Res<'w, T> {
    /// Wraps a shared reference.
    pub fn new(value: &'w T) -> (r: Res<'w, T>)
        ensures
            r@ == *value,
    {
        Res { value }
    }

    /// Returns the inner reference.
    pub fn into_inner(self) -> (r: &'w T)
        ensures
            *r == self@,
    {
        self.value
    }
}

impl<'w, T: 'static> Deref for Res<'w, T> {
    type Target = T;

    fn deref(&self) -> (r: &T)
        ensures
            *r == self@,
    {
        self.value
    }
}

/// Mutable access to a resource.
pub struct ResMut<'w, T: 'static> {
    value: &'w mut T,
}

impl<'w, T: 'static> ResMut<'w, T> {
    /// The resource's value now.
    pub closed spec fn current(&self) -> T {
        *self.value
    }

    /// Wraps a mutable reference.
    pub fn new(value: &'w mut T) -> (r: ResMut<'w, T>)
        ensures
            r.current() == *old(value),
    {
        ResMut { value }
    }

    /// Returns the inner mutable reference.
    pub fn into_inner(self) -> (r: &'w mut T)
        ensures
            *r == self.current(),
    {
        self.value
    }
}

impl<'w, T: 'static> Deref for ResMut<'w, T> {
    type Target = T;

    fn deref(&self) -> (r: &T)
        ensures
            *r == self.current(),
    {
        self.value
    }
}

impl<'w, T: 'static> DerefMut for ResMut<'w, T> {
    fn deref_mut(&mut self) -> (r: &mut T)
        ensures
            *r == old(self).current(),
            final(self).current() == *final(r),
    {
        self.value
    }
}

/// System-local state that persists between runs of one system.
pub struct Local<'s, T: Default + 'static> {
    value: &'s mut T,
}

impl<'s, T: Default + 'static> Local<'s, T> {
    /// The state's value now.
    pub closed spec fn current(&self) -> T {
        *self.value
    }

    /// Wraps a mutable reference to the state.
    pub fn new(value: &'s mut T) -> (l: Local<'s, T>)
        ensures
            l.current() == *old(value),
    {
        Local { value }
    }
}

impl<'s, T: Default + 'static> Deref for Local<'s, T> {
    type Target = T;

    fn deref(&self) -> (r: &T)
        ensures
            *r == self.current(),
    {
        self.value
    }
}

impl<'s, T: Default + 'static> DerefMut for Local<'s, T> {
    fn deref_mut(&mut self) -> (r: &mut T)
        ensures
            *r == old(self).current(),
            final(self).current() == *final(r),
    {
        self.value
    }
}

} // verus!
