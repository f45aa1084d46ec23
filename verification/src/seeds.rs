use vstd::prelude::*;

verus! {

/// Mixed into the world seed for the mineral-resource noise.
pub const MINERAL_SEED: u32 = 0x12345678;

/// Mixed into the world seed for the temperature noise.
pub const TEMP_SEED: u32 = 0xCE1C_FA5E;

/// Mixed into the world seed for the moisture noise.
pub const MOISTURE_SEED: u32 = 0xABCD_EF12;

/// The seeds of the three noises sampled under the civilization square, each the
/// world seed mixed by exclusive or with a constant of its own.
#[derive(Clone, Copy, Debug, PartialEq, Eq, Structural)]
pub struct NoiseSeeds {
    pub mineral: u32,
    pub temp: u32,
    pub moisture: u32,
}

impl NoiseSeeds {
    /// The three noise seeds derived from the world seed.
    pub fn new(seed: u32) -> (seeds: NoiseSeeds)
        ensures
            seeds.mineral == seed ^ MINERAL_SEED,
            seeds.temp == seed ^ TEMP_SEED,
            seeds.moisture == seed ^ MOISTURE_SEED,
    {
        NoiseSeeds { mineral: seed ^ MINERAL_SEED, temp: seed ^ TEMP_SEED, moisture: seed ^ MOISTURE_SEED }
    }
}

/// Whatever the world seed, the three derived seeds differ from one another, so the
/// three noises never coincide.
pub proof fn lemma_seeds_distinct(seed: u32)
    ensures
        seed ^ MINERAL_SEED != seed ^ TEMP_SEED,
        seed ^ MINERAL_SEED != seed ^ MOISTURE_SEED,
        seed ^ TEMP_SEED != seed ^ MOISTURE_SEED,
{
    assert(seed ^ 0x12345678u32 != seed ^ 0xCE1CFA5Eu32) by (bit_vector);
    assert(seed ^ 0x12345678u32 != seed ^ 0xABCDEF12u32) by (bit_vector);
    assert(seed ^ 0xCE1CFA5Eu32 != seed ^ 0xABCDEF12u32) by (bit_vector);
}

/// Distinct world seeds give distinct seeds to each noise: mixing in a constant
/// can be undone.
pub proof fn lemma_seed_mixing_injective(a: u32, b: u32, mix: u32)
    requires
        a ^ mix == b ^ mix,
    ensures
        a == b,
{
    assert(a ^ mix == b ^ mix ==> a == b) by (bit_vector);
}

} // verus!
