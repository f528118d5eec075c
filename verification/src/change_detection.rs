//! Tick-based change detection.
//!
//! A [`Tick`] is a wrapping `u32` counter. Two ticks are compared by their
//! wrapping distance, so comparisons stay correct across overflow as long as
//! the ticks are less than half the counter range apart.
use std::marker::PhantomData;
use vstd::prelude::*;

verus! {

/// Size of the tick counter's range: ticks live in `[0, TICK_MODULUS)`.
pub open spec fn tick_modulus() -> int {
    0x1_0000_0000
}

/// The wrapping distance from `b` forward to `a`, in `[0, 2^32)`.
pub open spec fn tick_distance(a: u32, b: u32) -> int {
    (a as int - b as int) % tick_modulus()
}

/// `a` is newer than `b`: `a` lies strictly ahead of `b` by less than
/// `u32::MAX / 2` steps of the wrapping counter.
pub open spec fn spec_newer(a: u32, b: u32) -> bool {
    tick_distance(a, b) < 0x7fff_ffff && a != b
}

/// `t` lies in the wrapping window that starts at `start` and ends at `end`.
pub open spec fn spec_in_range(t: u32, start: u32, end: u32) -> bool {
    tick_distance(t, start) <= tick_distance(end, start)
}

/// The tick that follows `t` on the wrapping counter.
pub open spec fn spec_next(t: u32) -> u32 {
    ((t as int + 1) % tick_modulus()) as u32
}

/// A monotonically increasing counter used for change detection.
#[derive(Debug, Clone, Copy, PartialEq, Eq, PartialOrd, Ord, Hash, Default, Structural)]
pub struct Tick(u32);

impl View for Tick {
    type V = u32;

    closed spec fn view(&self) -> u32 {
        self.0
    }
}

/// Two ticks are equal exactly when their counter values are equal.
pub proof fn lemma_tick_eq(a: Tick, b: Tick)
    ensures
        (a@ == b@) <==> a == b,
{
}

impl Tick {
    /// The initial tick value.
    pub fn zero() -> (t: Tick)
        ensures
            t@ == 0,
    {
        Tick(0)
    }

    /// Creates a new tick with the given value.
    pub fn new(value: u32) -> (t: Tick)
        ensures
            t@ == value,
    {
        Tick(value)
    }

    /// Returns the raw tick value.
    pub fn get(self) -> (v: u32)
        ensures
            v == self@,
    {
        self.0
    }

    /// Returns true if this tick is newer than `other`.
    pub fn is_newer_than(self, other: Tick) -> (b: bool)
        ensures
            b == spec_newer(self@, other@),
    {
        self.0.wrapping_sub(other.0) < u32::MAX / 2 && self.0 != other.0
    }

    /// Returns the next tick.
    pub fn next(self) -> (t: Tick)
        ensures
            t@ == spec_next(self@),
    {
        Tick(self.0.wrapping_add(1))
    }

    /// Returns true if this tick is within the window `[start, end]`.
    pub fn is_in_range(self, start: Tick, end: Tick) -> (b: bool)
        ensures
            b == spec_in_range(self@, start@, end@),
    {
        let diff_from_start = self.0.wrapping_sub(start.0);
        let range_size = end.0.wrapping_sub(start.0);
        diff_from_start <= range_size
    }
}

/// No tick is newer than itself.
pub proof fn lemma_newer_irreflexive(a: Tick)
    ensures
        !spec_newer(a@, a@),
{
}

/// Newness is asymmetric: if `a` is newer than `b`, `b` is not newer than `a`.
pub proof fn lemma_newer_asymmetric(a: Tick, b: Tick)
    requires
        spec_newer(a@, b@),
    ensures
        !spec_newer(b@, a@),
{
}

/// Advancing a tick by `k` steps, wrapping past `u32::MAX`, gives a newer
/// tick as long as `k` is below half the counter range.
pub proof fn lemma_advance_is_newer(t: Tick, k: nat)
    requires
        0 < k < 0x7fff_ffff,
    ensures
        spec_newer(((t@ + k) % tick_modulus()) as u32, t@),
{
}

/// The next tick is newer than the current one, also at the wraparound.
pub proof fn lemma_next_is_newer(t: Tick)
    ensures
        spec_newer(spec_next(t@), t@),
{
    lemma_advance_is_newer(t, 1);
}

/// Both ends of a window lie in the window.
pub proof fn lemma_range_contains_ends(start: Tick, end: Tick)
    ensures
        spec_in_range(start@, start@, end@),
        spec_in_range(end@, start@, end@),
{
}

/// A tick counter held by its owner; `increment` advances it by one step.
#[derive(Debug, Default)]
pub struct AtomicTick {
    value: u32,
}

impl View for AtomicTick {
    type V = u32;

    closed spec fn view(&self) -> u32 {
        self.value
    }
}

impl AtomicTick {
    /// Creates a new counter holding `value`.
    pub fn new(value: u32) -> (a: AtomicTick)
        ensures
            a@ == value,
    {
        AtomicTick { value }
    }

    /// Loads the current tick value.
    pub fn load(&self) -> (t: Tick)
        ensures
            t@ == self@,
    {
        Tick(self.value)
    }

    /// Stores a new tick value.
    pub fn store(&mut self, tick: Tick)
        ensures
            final(self)@ == tick@,
    {
        self.value = tick.0;
    }

    /// Increments the tick and returns the new value.
    pub fn increment(&mut self) -> (t: Tick)
        ensures
            final(self)@ == spec_next(old(self)@),
            t@ == final(self)@,
    {
        self.value = self.value.wrapping_add(1);
        Tick(self.value)
    }
}

/// Tracks when something was last changed.
#[derive(Debug, Clone, Copy, Default)]
pub struct ChangeTick {
    changed: Tick,
}

impl View for ChangeTick {
    type V = u32;

    closed spec fn view(&self) -> u32 {
        self.changed@
    }
}

impl ChangeTick {
    /// Creates a new change tick at tick 0.
    pub fn new() -> (c: ChangeTick)
        ensures
            c@ == 0,
    {
        ChangeTick { changed: Tick(0) }
    }

    /// Creates a change tick marked as changed at the given tick.
    pub fn at(tick: Tick) -> (c: ChangeTick)
        ensures
            c@ == tick@,
    {
        ChangeTick { changed: tick }
    }

    /// Marks this as changed at the given tick.
    pub fn mark_changed(&mut self, tick: Tick)
        ensures
            final(self)@ == tick@,
    {
        self.changed = tick;
    }

    /// Returns the tick when this was last changed.
    pub fn last_changed(&self) -> (t: Tick)
        ensures
            t@ == self@,
    {
        self.changed
    }

    /// Returns true if the last change is newer than `since`.
    pub fn is_changed_since(&self, since: Tick) -> (b: bool)
        ensures
            b == spec_newer(self@, since@),
    {
        self.changed.is_newer_than(since)
    }
}

/// Tracks the global world tick.
#[derive(Debug, Default)]
pub struct ChangeTrackers {
    world_tick: AtomicTick,
}

impl View for ChangeTrackers {
    type V = u32;

    closed spec fn view(&self) -> u32 {
        self.world_tick@
    }
}

impl ChangeTrackers {
    /// Creates a new change tracker at tick 0.
    pub fn new() -> (c: ChangeTrackers)
        ensures
            c@ == 0,
    {
        ChangeTrackers { world_tick: AtomicTick::new(0) }
    }

    /// Returns the current world tick.
    pub fn current_tick(&self) -> (t: Tick)
        ensures
            t@ == self@,
    {
        self.world_tick.load()
    }

    /// Advances the world tick by one and returns the new tick.
    pub fn advance_tick(&mut self) -> (t: Tick)
        ensures
            final(self)@ == spec_next(old(self)@),
            t@ == final(self)@,
    {
        self.world_tick.increment()
    }
}

/// Marker type for filtering queries by changed components.
#[derive(Debug)]
pub struct Changed<T>(PhantomData<T>);

impl<T> Changed<T> {
    /// The single value of this marker type.
    pub closed spec fn marker() -> Self {
        Changed(PhantomData)
    }
}

impl<T> Default for Changed<T> {
    fn default() -> (c: Self)
        ensures
            c == Self::marker(),
    {
        Changed(PhantomData)
    }
}

/// Marker type for filtering queries by newly added components.
#[derive(Debug)]
pub struct Added<T>(PhantomData<T>);

impl<T> Added<T> {
    /// The single value of this marker type.
    pub closed spec fn marker() -> Self {
        Added(PhantomData)
    }
}

impl<T> Default for Added<T> {
    fn default() -> (a: Self)
        ensures
            a == Self::marker(),
    {
        Added(PhantomData)
    }
}

} // verus!
