use roothold::image::{civ_offset, civ_side, draw_terrain, make_civ_img, Palette};
use roothold::terrain::height_to_terrain;
use roothold::world::{make_world, WorldSettings};

fn palette() -> Palette {
    let mut colors = [[0u8; 4]; 8];
    for (i, c) in colors.iter_mut().enumerate() {
        *c = [i as u8, 10 + i as u8, 20 + i as u8, 255];
    }
    Palette { colors }
}

#[test]
fn terrain_image_is_laid_out_row_by_row_across_chunks() {
    let mut s = WorldSettings::new();
    s.mode = 0;
    let height = |x: u32, y: u32| (x + 2 * y) % 64;
    let world = make_world(&s, &height);
    let p = palette();
    let pixels = draw_terrain(&world, &p);
    let width = 16 * 16usize;
    assert_eq!(pixels.len(), 4 * width * width);
    for (row, col) in [(0usize, 0usize), (0, 17), (17, 0), (100, 200), (255, 255), (31, 16)] {
        let h = (col as u32 + 2 * row as u32) % 64;
        let expected = p.colors[height_to_terrain(h).rank()];
        let at = 4 * (row * width + col);
        assert_eq!(&pixels[at..at + 4], &expected[..], "pixel ({}, {})", row, col);
    }
}

#[test]
fn terrain_image_of_flat_world_is_one_colour() {
    let mut s = WorldSettings::new();
    s.mode = 0;
    let world = make_world(&s, &|_x: u32, _y: u32| 25u32);
    let p = palette();
    let pixels = draw_terrain(&world, &p);
    let grass = p.colors[3];
    assert!(pixels.chunks(4).all(|px| px == grass));
}

#[test]
fn civilization_square() {
    assert_eq!(civ_side(4), 16);
    assert_eq!(civ_side(8), 32);
    assert_eq!(civ_offset(4), 8);
    assert_eq!(civ_offset(8), 16);
    let pixels = make_civ_img(4);
    assert_eq!(pixels.len(), 16 * 16 * 4);
    assert!(pixels.chunks(4).all(|px| px == [57, 218, 218, 240]));
    assert!(make_civ_img(0).is_empty());
}
