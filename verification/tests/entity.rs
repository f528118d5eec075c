use graviplex::Entity;

#[test]
fn test_to_from_bits_roundtrip() {
    let mut world = hecs::World::new();
    let hecs_entity = world.spawn(());
    let entity = Entity::from_bits(hecs_entity.to_bits().get()).unwrap();

    let bits = entity.to_bits();
    let reconstructed = Entity::from_bits(bits).unwrap();

    assert_eq!(entity, reconstructed);
    assert_eq!(bits, hecs_entity.to_bits().get());
}

#[test]
fn test_from_bits_zero_returns_none() {
    assert!(Entity::from_bits(0).is_none());
}

#[test]
fn from_bits_needs_nonzero_generation() {
    assert!(Entity::from_bits(u32::MAX as u64).is_none());
    let e = Entity::from_bits(1u64 << 32).unwrap();
    assert_eq!(e.to_bits(), 1u64 << 32);
    let f = Entity::from_bits(u64::MAX).unwrap();
    assert_eq!(f.to_bits(), u64::MAX);
    assert_ne!(e, f);
}

#[test]
fn bits_match_hecs_layout() {
    for bits in [(1u64 << 32) | 5, (7u64 << 32), u64::MAX, (u32::MAX as u64) + 1] {
        let ours = Entity::from_bits(bits).unwrap().to_bits();
        let theirs = hecs::Entity::from_bits(bits).unwrap().to_bits().get();
        assert_eq!(ours, theirs);
    }
}
