//! Entity handles: lightweight references to entities in a world.
use vstd::prelude::*;

verus! {

/// `2^32`, the weight of an entity's generation in its bit pattern.
pub open spec fn generation_weight() -> int {
    0x1_0000_0000
}

/// A lightweight handle to an entity: a generation (never zero) and an index.
///
/// Its bit pattern puts the generation in the upper 32 bits and the index in
/// the lower 32 bits, so every valid pattern is at least `2^32`.
#[derive(Clone, Copy, PartialEq, Eq, Hash, Debug, Structural)]
pub struct Entity {
    generation: u32,
    id: u32,
}

impl View for Entity {
    type V = u64;

    /// The entity's bit pattern.
    closed spec fn view(&self) -> u64 {
        (self.generation as int * generation_weight() + self.id as int) as u64
    }
}

/// The entity whose bit pattern is `bits`, if its generation part is nonzero.
pub closed spec fn entity_from_bits(bits: u64) -> Option<Entity> {
    if bits < generation_weight() {
        None
    } else {
        Some(
            Entity {
                generation: (bits / generation_weight() as u64) as u32,
                id: (bits % generation_weight() as u64) as u32,
            },
        )
    }
}

impl Entity {
    /// Every entity handle has a nonzero generation.
    #[verifier::type_invariant]
    pub closed spec fn valid(self) -> bool {
        self.generation != 0
    }

    /// Converts the entity to its unique `u64` bit pattern.
    pub fn to_bits(self) -> (bits: u64)
        ensures
            bits == self@,
            bits >= generation_weight(),
    {
        proof {
            use_type_invariant(&self);
        }
        let g = self.generation as u64;
        let i = self.id as u64;
        assert((g << 32u64) | i == g * 0x1_0000_0000u64 + i) by (bit_vector)
            requires
                g < 0x1_0000_0000u64,
                i < 0x1_0000_0000u64,
        ;
        (g << 32u64) | i
    }

    /// Reconstructs an entity from a bit pattern produced by `to_bits`.
    ///
    /// Returns `None` exactly when the generation part (the upper 32 bits) is zero.
    pub fn from_bits(bits: u64) -> (e: Option<Entity>)
        ensures
            e == entity_from_bits(bits),
            e is None <==> bits < generation_weight(),
            e matches Some(ent) ==> ent@ == bits,
    {
        let g = (bits >> 32u64) as u32;
        let i = bits as u32;
        assert((bits >> 32u64) as u32 as u64 == bits / 0x1_0000_0000u64) by (bit_vector);
        assert(bits as u32 as u64 == bits % 0x1_0000_0000u64) by (bit_vector);
        if g == 0 {
            None
        } else {
            Some(Entity { generation: g, id: i })
        }
    }
}

/// Two entities with the same bit pattern are the same entity.
pub proof fn lemma_entity_bits_injective(a: Entity, b: Entity)
    requires
        a@ == b@,
    ensures
        a == b,
{
    assert(a.generation == b.generation && a.id == b.id) by (nonlinear_arith)
        requires
            a.generation * generation_weight() + a.id == b.generation * generation_weight() + b.id,
            a.id < generation_weight(),
            b.id < generation_weight(),
    ;
}

/// Converting an entity to bits and back gives the same entity.
pub proof fn lemma_entity_bits_roundtrip(e: Entity)
    requires
        e.valid(),
    ensures
        entity_from_bits(e@) == Some(e),
{
    let w = generation_weight();
    let v = e.generation as int * w + e.id as int;
    assert(v / w == e.generation as int && v % w == e.id as int) by (nonlinear_arith)
        requires
            v == e.generation as int * w + e.id as int,
            0 <= e.id < w,
            0 <= e.generation,
            w > 0,
    ;
    let b = entity_from_bits(e@)->0;
    assert(b@ == e@);
    lemma_entity_bits_injective(b, e);
}

/// A bit pattern that decodes to an entity is that entity's bit pattern.
pub proof fn lemma_entity_from_bits_view(bits: u64)
    ensures
        entity_from_bits(bits) is None <==> bits < generation_weight(),
        entity_from_bits(bits) matches Some(e) ==> e@ == bits,
{
    let w = generation_weight();
    let n = bits as int;
    assert(n / w * w + n % w == n && 0 <= n % w < w && n / w < w) by (nonlinear_arith)
        requires
            w == 0x1_0000_0000,
            0 <= n < w * w,
    ;
}

} // verus!
