//! Systems built from functions: the system record and parameter markers.
use crate::param::Access;
use std::marker::PhantomData;
use vstd::prelude::*;

verus! {

/// A system created from a function: the function, its name and the data it
/// accesses.
pub struct FunctionSystem<F, Marker> {
    func: F,
    name: &'static str,
    access: Vec<Access>,
    _marker: PhantomData<Marker>,
}

impl<F, Marker> FunctionSystem<F, Marker> {
    /// The function run by this system.
    pub closed spec fn spec_func(&self) -> F {
        self.func
    }

    /// The system's name.
    pub closed spec fn spec_name(&self) -> Seq<char> {
        self.name@
    }

    /// The accesses this system declares.
    pub closed spec fn spec_access(&self) -> Seq<Access> {
        self.access@
    }

    /// Creates a system from a function, its name and its accesses.
    pub fn new(func: F, name: &'static str, access: Vec<Access>) -> (s: Self)
        ensures
            s.spec_func() == func,
            s.spec_name() == name@,
            s.spec_access() == access@,
    {
        FunctionSystem { func, name, access, _marker: PhantomData }
    }

    /// The system's name.
    pub fn name(&self) -> (s: &'static str)
        ensures
            s@ == self.spec_name(),
    {
        self.name
    }

    /// The accesses this system declares.
    pub fn access(&self) -> (a: &[Access])
        ensures
            a@ == self.spec_access(),
    {
        self.access.as_slice()
    }

    /// The function run by this system, for calling it.
    pub fn func_mut(&mut self) -> (f: &mut F)
        ensures
            *f == old(self).spec_func(),
    {
        &mut self.func
    }
}

/// Marker type for systems with no parameters.
pub struct SystemMarker0;

/// Marker type for systems with one parameter.
pub struct SystemMarker1<P1>(pub PhantomData<P1>);

/// Marker type for systems with two parameters.
pub struct SystemMarker2<P1, P2>(pub PhantomData<(P1, P2)>);

/// Marker type for systems with three parameters.
pub struct SystemMarker3<P1, P2, P3>(pub PhantomData<(P1, P2, P3)>);

/// Marker type for systems with four parameters.
pub struct SystemMarker4<P1, P2, P3, P4>(pub PhantomData<(P1, P2, P3, P4)>);

/// Marker for systems that take the whole world.
pub struct WorldMarker;

/// Marker for systems that take the world and a resource.
pub struct WorldResMarker<T>(pub PhantomData<T>);

} // verus!
