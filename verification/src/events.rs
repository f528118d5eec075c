//! Event channels for decoupled communication between game systems.
//!
//! Events of one type are collected in an [`Events`] channel in the order
//! they are sent; readers see them in that order until the channel is cleared.
use crate::entity::Entity;
use vstd::prelude::*;
use vstd::std_specs::iter::IteratorSpec;

verus! {

/// A channel for events of a specific type.
#[derive(Debug)]
pub struct Events<T> {
    events: Vec<T>,
}

impl<T> View for Events<T> {
    type V = Seq<T>;

    /// The pending events, oldest first.
    closed spec fn view(&self) -> Seq<T> {
        self.events@
    }
}

impl<T> Default for Events<T> {
    fn default() -> (e: Self)
        ensures
            e@ == Seq::<T>::empty(),
    {
        Self::new()
    }
}

impl<T> Events<T> {
    /// Creates a new empty event channel.
    pub fn new() -> (e: Self)
        ensures
            e@ == Seq::<T>::empty(),
    {
        Events { events: Vec::new() }
    }

    /// Creates an empty channel with room for `capacity` events.
    pub fn with_capacity(capacity: usize) -> (e: Self)
        ensures
            e@ == Seq::<T>::empty(),
    {
        Events { events: Vec::with_capacity(capacity) }
    }

    /// Sends an event: it is appended after all pending events.
    pub fn send(&mut self, event: T)
        ensures
            final(self)@ == old(self)@.push(event),
    {
        self.events.push(event);
    }

    /// Sends several events, in the order given.
    pub fn send_batch(&mut self, events: Vec<T>)
        ensures
            final(self)@ == old(self)@ + events@,
    {
        let mut events = events;
        self.events.append(&mut events);
    }

    /// Reads all pending events, oldest first, without removing them.
    pub fn read(&self) -> (it: std::slice::Iter<'_, T>)
        ensures
            it.remaining() == self@.map_values(|e: T| &e),
    {
        let it = self.events.as_slice().iter();
        proof {
            assert(it.remaining() == self.events@.as_ref());
        }
        it
    }

    /// Removes all pending events and hands them out, oldest first.
    pub fn drain(&mut self) -> (it: std::vec::IntoIter<T>)
        ensures
            it.remaining() == old(self)@,
            final(self)@ == Seq::<T>::empty(),
    {
        let mut drained = Vec::new();
        std::mem::swap(&mut drained, &mut self.events);
        drained.into_iter()
    }

    /// Returns true if there are no pending events.
    pub fn is_empty(&self) -> (b: bool)
        ensures
            b == (self@.len() == 0),
    {
        self.events.is_empty()
    }

    /// Returns the number of pending events.
    pub fn len(&self) -> (n: usize)
        ensures
            n == self@.len(),
    {
        self.events.len()
    }

    /// Removes all pending events.
    pub fn clear(&mut self)
        ensures
            final(self)@ == Seq::<T>::empty(),
    {
        self.events.clear();
    }
}

/// Appending one event to a pending list.
pub open spec fn sent<T>() -> spec_fn(Seq<T>, T) -> Seq<T> {
    |acc: Seq<T>, e: T| acc.push(e)
}

/// Sending a batch is sending its events one by one, in order: the pending
/// events after `send_batch(batch)` are those after a `send` of each.
pub proof fn lemma_batch_is_sends<T>(pending: Seq<T>, batch: Seq<T>)
    ensures
        pending + batch == batch.fold_left(pending, sent::<T>()),
    decreases batch.len(),
{
    if batch.len() > 0 {
        lemma_batch_is_sends(pending, batch.drop_last());
        assert(pending + batch =~= (pending + batch.drop_last()).push(batch.last()));
    } else {
        assert(pending + batch =~= pending);
    }
}

/// Event emitted when an entity is spawned.
#[derive(Clone, Copy, Debug)]
pub struct SpawnEvent {
    /// The spawned entity.
    pub entity: Entity,
}

/// Event emitted when an entity is about to be despawned.
#[derive(Clone, Copy, Debug)]
pub struct DespawnEvent {
    /// The entity being despawned.
    pub entity: Entity,
}

/// Event emitted when a collision starts.
#[derive(Clone, Copy, Debug)]
pub struct CollisionStartEvent {
    /// First entity in the collision.
    pub entity_a: Entity,
    /// Second entity in the collision.
    pub entity_b: Entity,
}

/// Event emitted when a collision ends.
#[derive(Clone, Copy, Debug)]
pub struct CollisionEndEvent {
    /// First entity.
    pub entity_a: Entity,
    /// Second entity.
    pub entity_b: Entity,
}

/// Event emitted when an entity dies or is destroyed.
#[derive(Clone, Copy, Debug)]
pub struct DeathEvent {
    /// The entity that died.
    pub entity: Entity,
}

/// Generic trigger event for game logic.
#[derive(Clone, Debug)]
pub struct TriggerEvent {
    /// Identifier of the trigger.
    pub trigger_id: String,
    /// Optional data payload.
    pub data: Option<String>,
}

impl TriggerEvent {
    /// Creates a trigger event without data.
    pub fn new(trigger_id: &str) -> (e: TriggerEvent)
        ensures
            e.trigger_id@ == trigger_id@,
            e.data is None,
    {
        TriggerEvent { trigger_id: trigger_id.to_owned(), data: None }
    }

    /// Creates a trigger event carrying `data`.
    pub fn with_data(trigger_id: &str, data: &str) -> (e: TriggerEvent)
        ensures
            e.trigger_id@ == trigger_id@,
            e.data matches Some(d) && d@ == data@,
    {
        TriggerEvent { trigger_id: trigger_id.to_owned(), data: Some(data.to_owned()) }
    }
}

} // verus!
