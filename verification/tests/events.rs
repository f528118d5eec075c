use graviplex::{Entity, Events, SpawnEvent, TriggerEvent};

#[derive(Clone, Debug, PartialEq)]
struct TestEvent {
    value: i32,
}

#[test]
fn test_events_channel() {
    let mut events = Events::<TestEvent>::new();

    events.send(TestEvent { value: 1 });
    events.send(TestEvent { value: 2 });

    assert_eq!(events.len(), 2);

    let values: Vec<_> = events.read().map(|e| e.value).collect();
    assert_eq!(values, vec![1, 2]);

    events.clear();
    assert!(events.is_empty());
}

#[test]
fn test_events_drain() {
    let mut events = Events::<TestEvent>::new();

    events.send(TestEvent { value: 1 });
    events.send(TestEvent { value: 2 });

    let drained: Vec<_> = events.drain().collect();
    assert_eq!(drained.len(), 2);
    assert!(events.is_empty());
}

#[test]
fn test_send_batch() {
    let mut events = Events::<TestEvent>::new();

    events.send_batch(vec![
        TestEvent { value: 1 },
        TestEvent { value: 2 },
        TestEvent { value: 3 },
    ]);

    assert_eq!(events.len(), 3);
}

#[test]
fn drain_returns_events_in_send_order() {
    let mut events = Events::with_capacity(4);
    events.send(TestEvent { value: 3 });
    events.send_batch(vec![TestEvent { value: 1 }, TestEvent { value: 2 }]);
    let drained: Vec<i32> = events.drain().map(|e| e.value).collect();
    assert_eq!(drained, vec![3, 1, 2]);
    assert_eq!(events.len(), 0);
    assert_eq!(events.read().count(), 0);
}

#[test]
fn default_channel_is_empty() {
    let events: Events<TestEvent> = Events::default();
    assert!(events.is_empty());
}

#[test]
fn trigger_events_carry_id_and_data() {
    let plain = TriggerEvent::new("door");
    assert_eq!(plain.trigger_id, "door");
    assert!(plain.data.is_none());
    let with = TriggerEvent::with_data("chest", "gold");
    assert_eq!(with.trigger_id, "chest");
    assert_eq!(with.data.as_deref(), Some("gold"));
}

#[test]
fn spawn_event_holds_entity() {
    let e = Entity::from_bits((3u64 << 32) | 9).unwrap();
    let ev = SpawnEvent { entity: e };
    assert_eq!(ev.entity.to_bits(), (3u64 << 32) | 9);
}
