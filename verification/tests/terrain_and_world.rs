use roothold::terrain::{all_terrains, height_to_terrain, Terrain};
use roothold::world::{
    create_chunk_grid, generate_chunk, make_world, view_limit, world_side, Chunk, World,
    WorldSettings,
};

#[test]
fn height_bands_have_their_terrain() {
    let cases: [(u32, Terrain); 16] = [
        (0, Terrain::DeepWater),
        (15, Terrain::DeepWater),
        (16, Terrain::ShallowWater),
        (20, Terrain::ShallowWater),
        (21, Terrain::Sand),
        (22, Terrain::Sand),
        (23, Terrain::Grass),
        (30, Terrain::Grass),
        (31, Terrain::Hills),
        (38, Terrain::Hills),
        (39, Terrain::Mix),
        (43, Terrain::Mix),
        (44, Terrain::Mountains),
        (47, Terrain::Mountains),
        (48, Terrain::SnowyPeaks),
        (u32::MAX, Terrain::SnowyPeaks),
    ];
    for (height, terrain) in cases {
        assert_eq!(height_to_terrain(height), terrain, "height {}", height);
    }
}

#[test]
fn terrain_never_drops_as_height_rises() {
    let mut last = 0usize;
    for height in 0..200u32 {
        let rank = height_to_terrain(height).rank();
        assert!(rank >= last);
        last = rank;
    }
}

#[test]
fn all_terrains_are_in_rank_order() {
    let all = all_terrains();
    assert_eq!(all.len(), 8);
    for (i, t) in all.iter().enumerate() {
        assert_eq!(t.rank(), i);
    }
    assert_eq!(all[0], Terrain::DeepWater);
    assert_eq!(all[7], Terrain::SnowyPeaks);
}

#[test]
fn world_sides_by_mode() {
    assert_eq!(world_side(0), Some(256));
    assert_eq!(world_side(1), Some(512));
    assert_eq!(world_side(2), Some(1024));
    assert_eq!(world_side(3), Some(1536));
    assert_eq!(world_side(4), None);
    assert_eq!(world_side(255), None);
}

#[test]
fn default_settings() {
    let s = WorldSettings::new();
    assert_eq!(s.mode, 5);
    assert_eq!(s.scale, 50);
    assert_eq!(s.civ_size, 0);
    assert_eq!(s.seed, 0);
}

#[test]
fn blank_chunk_is_all_zero() {
    let c = Chunk::new();
    assert_eq!(c.x, 0);
    assert_eq!(c.y, 0);
    assert!(c.tiles.iter().all(|row| row.iter().all(|h| *h == 0)));
}

#[test]
fn chunk_grid_is_square_and_blank() {
    let grid = create_chunk_grid(3);
    assert_eq!(grid.len(), 3);
    for row in &grid {
        assert_eq!(row.len(), 3);
        for c in row {
            assert_eq!((c.x, c.y), (0, 0));
            assert!(c.tiles.iter().all(|r| r.iter().all(|h| *h == 0)));
        }
    }
    assert!(create_chunk_grid(0).is_empty());
}

#[test]
fn new_world_size_follows_mode() {
    let mut s = WorldSettings::new();
    for (mode, chunks) in [(0u8, 16u32), (1, 32), (2, 64), (3, 96), (4, 64), (5, 64)] {
        s.mode = mode;
        let w = World::new(&s);
        assert_eq!(w.size(), chunks);
        let last = (chunks - 1) as usize;
        let c = w.chunk(last, last);
        assert_eq!((c.x, c.y), (0, 0));
        assert_eq!(c.tiles[15][15], 0);
    }
}

#[test]
fn generated_chunk_samples_world_coordinates() {
    let height = |x: u32, y: u32| x + 1000 * y;
    let c = generate_chunk(3, 2, &height);
    assert_eq!((c.x, c.y), (3, 2));
    assert_eq!(c.tiles[0][0], 48 + 1000 * 32);
    assert_eq!(c.tiles[5][7], 55 + 1000 * 37);
    assert_eq!(c.tiles[15][15], 63 + 1000 * 47);
}

#[test]
fn made_world_places_each_chunk() {
    let mut s = WorldSettings::new();
    s.mode = 0;
    let height = |x: u32, y: u32| (x * 7 + y * 3) % 60;
    let w = make_world(&s, &height);
    assert_eq!(w.size(), 16);
    for row in 0..16usize {
        for col in 0..16usize {
            let c = w.chunk(row, col);
            assert_eq!((c.x as usize, c.y as usize), (col, row));
            for r in 0..16u32 {
                for k in 0..16u32 {
                    let wx = col as u32 * 16 + k;
                    let wy = row as u32 * 16 + r;
                    assert_eq!(c.tiles[r as usize][k as usize], (wx * 7 + wy * 3) % 60);
                }
            }
        }
    }
}

#[test]
fn view_limit_is_half_the_side_in_tiles() {
    let mut s = WorldSettings::new();
    s.mode = 0;
    assert_eq!(view_limit(&World::new(&s)), 128);
    s.mode = 3;
    assert_eq!(view_limit(&World::new(&s)), 768);
}
