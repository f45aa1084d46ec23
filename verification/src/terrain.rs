use vstd::prelude::*;

verus! {

/// The kind of ground a tile shows, from the lowest heights to the highest.
#[derive(Clone, Copy, Debug, PartialEq, Eq, Structural)]
pub enum Terrain {
    DeepWater,
    ShallowWater,
    Sand,
    Grass,
    Hills,
    Mix,
    Mountains,
    SnowyPeaks,
}

/// The terrain of a tile of the given height: the bands are
/// 0..=15, 16..=20, 21..=22, 23..=30, 31..=38, 39..=43, 44..=47 and 48 upwards.
pub open spec fn spec_terrain_of(height: u32) -> Terrain {
    if height <= 15 {
        Terrain::DeepWater
    } else if height <= 20 {
        Terrain::ShallowWater
    } else if height <= 22 {
        Terrain::Sand
    } else if height <= 30 {
        Terrain::Grass
    } else if height <= 38 {
        Terrain::Hills
    } else if height <= 43 {
        Terrain::Mix
    } else if height <= 47 {
        Terrain::Mountains
    } else {
        Terrain::SnowyPeaks
    }
}

/// The position of a terrain in the order from lowest to highest ground.
pub open spec fn spec_rank(t: Terrain) -> nat {
    match t {
        Terrain::DeepWater => 0,
        Terrain::ShallowWater => 1,
        Terrain::Sand => 2,
        Terrain::Grass => 3,
        Terrain::Hills => 4,
        Terrain::Mix => 5,
        Terrain::Mountains => 6,
        Terrain::SnowyPeaks => 7,
    }
}

impl Terrain {
    /// The position of this terrain in the order from lowest to highest ground,
    /// used to pick its entry in a palette.
    pub fn rank(&self) -> (r: usize)
        ensures
            r == spec_rank(*self),
            r < 8,
    {
        match self {
            Terrain::DeepWater => 0,
            Terrain::ShallowWater => 1,
            Terrain::Sand => 2,
            Terrain::Grass => 3,
            Terrain::Hills => 4,
            Terrain::Mix => 5,
            Terrain::Mountains => 6,
            Terrain::SnowyPeaks => 7,
        }
    }
}

/// Every terrain, from lowest to highest ground: entry `i` has rank `i`.
pub fn all_terrains() -> (all: Vec<Terrain>)
    ensures
        all@.len() == 8,
        forall|i: int| 0 <= i < 8 ==> spec_rank(#[trigger] all@[i]) == i,
{
    let mut all: Vec<Terrain> = Vec::new();
    all.push(Terrain::DeepWater);
    all.push(Terrain::ShallowWater);
    all.push(Terrain::Sand);
    all.push(Terrain::Grass);
    all.push(Terrain::Hills);
    all.push(Terrain::Mix);
    all.push(Terrain::Mountains);
    all.push(Terrain::SnowyPeaks);
    all
}

/// Classifies a tile height into the terrain it is drawn as.
pub fn height_to_terrain(height: u32) -> (t: Terrain)
    ensures
        t == spec_terrain_of(height),
{
    match height {
        0..=15 => Terrain::DeepWater,
        16..=20 => Terrain::ShallowWater,
        21..=22 => Terrain::Sand,
        23..=30 => Terrain::Grass,
        31..=38 => Terrain::Hills,
        39..=43 => Terrain::Mix,
        44..=47 => Terrain::Mountains,
        _ => Terrain::SnowyPeaks,
    }
}

/// Higher ground never shows a lower terrain: the classification is monotone
/// in the height.
pub proof fn lemma_terrain_monotone(low: u32, high: u32)
    requires
        low <= high,
    ensures
        spec_rank(spec_terrain_of(low)) <= spec_rank(spec_terrain_of(high)),
{
}

/// The terrain of each height band: water up to 20 (deep up to 15), sand at 21
/// and 22, grass from 23 to 30, hills from 31 to 38, mixed ground from 39 to 43,
/// mountains from 44 to 47, and snowy peaks from 48 up.
pub proof fn lemma_terrain_bands(h: u32)
    ensures
        (spec_terrain_of(h) == Terrain::DeepWater) <==> h <= 15,
        (spec_terrain_of(h) == Terrain::ShallowWater) <==> 16 <= h <= 20,
        (spec_terrain_of(h) == Terrain::Sand) <==> 21 <= h <= 22,
        (spec_terrain_of(h) == Terrain::Grass) <==> 23 <= h <= 30,
        (spec_terrain_of(h) == Terrain::Hills) <==> 31 <= h <= 38,
        (spec_terrain_of(h) == Terrain::Mix) <==> 39 <= h <= 43,
        (spec_terrain_of(h) == Terrain::Mountains) <==> 44 <= h <= 47,
        (spec_terrain_of(h) == Terrain::SnowyPeaks) <==> 48 <= h,
{
}

} // verus!
