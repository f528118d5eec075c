use graviplex::{Collider, ColliderShape, CollisionEvent, CollisionLayer, Entity, Vec2Bits};

fn entity(bits: u64) -> Entity {
    Entity::from_bits(bits).unwrap()
}

#[test]
fn test_layer_filtering() {
    let player_layer = CollisionLayer::new(0);
    let enemy_layer = CollisionLayer::new(1);

    let player = Collider::circle(10.0f32.to_bits())
        .with_layer(player_layer)
        .collides_with(enemy_layer);

    let enemy = Collider::circle(10.0f32.to_bits())
        .with_layer(enemy_layer)
        .collides_with(player_layer);

    let neutral = Collider::circle(10.0f32.to_bits())
        .with_layer(CollisionLayer::new(2))
        .collides_with(CollisionLayer::new(2));

    assert!(player.can_collide_with(&enemy));
    assert!(enemy.can_collide_with(&player));
    assert!(!player.can_collide_with(&neutral));
}

#[test]
fn test_trigger_collider() {
    let trigger = Collider::circle(10.0f32.to_bits()).as_trigger();
    assert!(trigger.is_trigger);
}

#[test]
fn collider_defaults() {
    let c = Collider::default();
    assert_eq!(c.shape, ColliderShape::Circle { radius_bits: 1.0f32.to_bits() });
    assert_eq!(c.layer, CollisionLayer::all());
    assert_eq!(c.mask, CollisionLayer::all());
    assert_eq!(c.offset_bits, Vec2Bits { x_bits: 0, y_bits: 0 });
    assert!(!c.is_trigger);
    assert!(c.enabled);
    assert_eq!(Collider::point().shape, ColliderShape::Point);
}

#[test]
fn disabled_collider_interacts_with_nothing() {
    let mut a = Collider::circle(2.0f32.to_bits());
    let b = Collider::point();
    assert!(a.can_collide_with(&b));
    a.set_enabled(false);
    assert!(!a.can_collide_with(&b));
    assert!(!b.can_collide_with(&a));
    a.set_enabled(true);
    assert!(a.can_collide_with(&b));
}

#[test]
fn interaction_is_symmetric() {
    let a = Collider::point().with_layer(CollisionLayer::new(3)).collides_with(CollisionLayer::new(4));
    let b = Collider::point().with_layer(CollisionLayer::new(4)).collides_with(CollisionLayer::none());
    assert_eq!(a.can_collide_with(&b), b.can_collide_with(&a));
    assert!(!a.can_collide_with(&b));
    let offset = Vec2Bits { x_bits: 1.5f32.to_bits(), y_bits: 0 };
    assert_eq!(a.with_offset(offset).offset_bits, offset);
}

#[test]
fn collision_event_other() {
    let a = entity((1u64 << 32) | 7);
    let b = entity((2u64 << 32) | 9);
    let c = entity((1u64 << 32) | 8);
    let ev = CollisionEvent {
        entity_a: a,
        entity_b: b,
        penetration_bits: 0,
        normal_bits: Vec2Bits { x_bits: 0, y_bits: 0 },
        contact_bits: Vec2Bits { x_bits: 0, y_bits: 0 },
    };
    assert!(ev.involves(a));
    assert!(ev.involves(b));
    assert!(!ev.involves(c));
    assert_eq!(ev.other(a), Some(b));
    assert_eq!(ev.other(b), Some(a));
    assert_eq!(ev.other(c), None);
}
