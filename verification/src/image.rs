use vstd::prelude::*;
use vstd::arithmetic::div_mod::lemma_fundamental_div_mod_converse;
use crate::terrain::{height_to_terrain, spec_rank, spec_terrain_of};
use crate::world::{tile_height, Chunk, World};

verus! {

/// The RGBA bytes drawn for each terrain, indexed by its rank from lowest to
/// highest ground.
#[derive(Clone, Copy, Debug)]
pub struct Palette {
    pub colors: [[u8; 4]; 8],
}

/// The colour of the tile in image row `row`, column `col`.
pub open spec fn tile_rgba(world: Seq<Seq<Chunk>>, palette: Palette, row: int, col: int) -> [u8; 4] {
    palette.colors[spec_rank(spec_terrain_of(tile_height(world, row, col))) as int]
}

/// The terrain image of a world, row by row from the top, four bytes (red, green,
/// blue, alpha) to a tile: a square of `16 * world.len()` tiles on a side.
pub open spec fn terrain_image_bytes(world: Seq<Seq<Chunk>>, palette: Palette) -> Seq<u8> {
    let w: int = 16 * world.len() as int;
    Seq::new((4 * w * w) as nat, |i: int| tile_rgba(world, palette, (i / 4) / w, (i / 4) % w)[i % 4])
}

/// The four bytes of the pixel in row `row`, column `col` of an RGBA image
/// `width` pixels wide.
pub open spec fn rgba_at(pixels: Seq<u8>, width: int, row: int, col: int) -> Seq<u8> {
    pixels.subrange(4 * (row * width + col), 4 * (row * width + col) + 4)
}

proof fn lemma_image_byte(world: Seq<Seq<Chunk>>, palette: Palette, done: int, k: int)
    requires
        0 <= done < (16 * world.len()) * (16 * world.len()),
        0 <= k < 4,
    ensures
        terrain_image_bytes(world, palette).len() == 4 * ((16 * world.len()) * (16 * world.len())),
        terrain_image_bytes(world, palette)[4 * done + k] == tile_rgba(
            world,
            palette,
            done / (16 * world.len() as int),
            done % (16 * world.len() as int),
        )[k],
{
    let w: int = 16 * world.len() as int;
    assert(4 * w * w == 4 * (w * w)) by (nonlinear_arith);
    lemma_fundamental_div_mod_converse(4 * done + k, 4, done, k);
}

proof fn lemma_tile_position(world: Seq<Seq<Chunk>>, chunk_row: int, tile_row: int, chunk_col: int, tile_col: int)
    requires
        0 <= chunk_row < world.len(),
        0 <= tile_row < 16,
        0 <= chunk_col < world.len(),
        0 <= tile_col < 16,
    ensures
        ({
            let w: int = 16 * world.len() as int;
            let done = (chunk_row * 16 + tile_row) * w + chunk_col * 16 + tile_col;
            &&& 0 <= done < w * w
            &&& done / w == chunk_row * 16 + tile_row
            &&& done % w == chunk_col * 16 + tile_col
            &&& tile_height(world, done / w, done % w) == world[chunk_row][chunk_col].tiles[tile_row][tile_col]
        }),
{
    let w: int = 16 * world.len() as int;
    let row = chunk_row * 16 + tile_row;
    let col = chunk_col * 16 + tile_col;
    let done = row * w + col;
    assert(0 <= done < w * w) by (nonlinear_arith)
        requires
            0 <= row < w,
            0 <= col < w,
            done == row * w + col,
    ;
    lemma_fundamental_div_mod_converse(done, w, row, col);
    lemma_fundamental_div_mod_converse(row, 16, chunk_row, tile_row);
    lemma_fundamental_div_mod_converse(col, 16, chunk_col, tile_col);
}

proof fn lemma_next_tile(
    world: Seq<Seq<Chunk>>,
    palette: Palette,
    chunk_row: int,
    tile_row: int,
    chunk_col: int,
    tile_col: int,
    before: Seq<u8>,
    color: [u8; 4],
)
    requires
        0 <= chunk_row < world.len(),
        0 <= tile_row < 16,
        0 <= chunk_col < world.len(),
        0 <= tile_col < 16,
        before == terrain_image_bytes(world, palette).take(
            4 * ((chunk_row * 16 + tile_row) * (16 * world.len()) + chunk_col * 16 + tile_col),
        ),
        color == palette.colors[spec_rank(
            spec_terrain_of(world[chunk_row][chunk_col].tiles[tile_row][tile_col]),
        ) as int],
    ensures
        before.push(color[0]).push(color[1]).push(color[2]).push(color[3])
            == terrain_image_bytes(world, palette).take(
            4 * ((chunk_row * 16 + tile_row) * (16 * world.len()) + chunk_col * 16 + tile_col + 1),
        ),
{
    let w: int = 16 * world.len() as int;
    let done = (chunk_row * 16 + tile_row) * w + chunk_col * 16 + tile_col;
    let bytes = terrain_image_bytes(world, palette);
    lemma_tile_position(world, chunk_row, tile_row, chunk_col, tile_col);
    assert(tile_rgba(world, palette, done / w, done % w) == color);
    assert forall|k: int| 0 <= k < 4 implies bytes[4 * done + k] == color[k] by {
        lemma_image_byte(world, palette, done, k);
    }
    lemma_image_byte(world, palette, done, 0);
    let after = before.push(color[0]).push(color[1]).push(color[2]).push(color[3]);
    assert(after =~= bytes.take(4 * (done + 1)));
}

/// The terrain image of the world: each tile a pixel of the palette's colour for
/// its terrain, rows of tiles running across all the chunks of a chunk row.
pub fn draw_terrain(world: &World, palette: &Palette) -> (pixels: Vec<u8>)
    ensures
        pixels@ == terrain_image_bytes(world@, *palette),
        pixels@.len() == 4 * (16 * world@.len()) * (16 * world@.len()),
        forall|row: int, col: int|
            0 <= row < 16 * world@.len() && 0 <= col < 16 * world@.len() ==> #[trigger] rgba_at(
                pixels@,
                16 * world@.len() as int,
                row,
                col,
            ) == tile_rgba(world@, *palette, row, col)@,
{
    let size = world.size();
    let ghost w: int = 16 * size;
    let ghost bytes = terrain_image_bytes(world@, *palette);
    let mut pixels: Vec<u8> = Vec::new();
    assert(4 * ((0 * 16) * w) == 0) by (nonlinear_arith);
    assert(pixels@ =~= bytes.take(0));
    for world_y in 0..size as usize
        invariant
            size == world@.len(),
            forall|r: int| 0 <= r < size ==> #[trigger] world@[r].len() == size,
            w == 16 * size,
            bytes == terrain_image_bytes(world@, *palette),
            pixels@ == bytes.take(4 * ((world_y * 16) * w)),
    {
        for index in 0..16usize
            invariant
                size == world@.len(),
                forall|r: int| 0 <= r < size ==> #[trigger] world@[r].len() == size,
                w == 16 * size,
                world_y < size,
                bytes == terrain_image_bytes(world@, *palette),
                pixels@ == bytes.take(4 * ((world_y * 16 + index) * w)),
        {
            for chunk_col in 0..size as usize
                invariant
                    size == world@.len(),
                    forall|r: int| 0 <= r < size ==> #[trigger] world@[r].len() == size,
                    w == 16 * size,
                    world_y < size,
                    index < 16,
                    bytes == terrain_image_bytes(world@, *palette),
                    pixels@ == bytes.take(4 * ((world_y * 16 + index) * w + chunk_col * 16)),
            {
                let chunk = world.chunk(world_y, chunk_col);
                for t in 0..16usize
                    invariant
                        size == world@.len(),
                        forall|r: int| 0 <= r < size ==> #[trigger] world@[r].len() == size,
                        w == 16 * size,
                        world_y < size,
                        index < 16,
                        chunk_col < size,
                        *chunk == world@[world_y as int][chunk_col as int],
                        bytes == terrain_image_bytes(world@, *palette),
                        pixels@ == bytes.take(4 * ((world_y * 16 + index) * w + chunk_col * 16 + t)),
                {
                    let height = chunk.tiles[index][t];
                    let color = palette.colors[height_to_terrain(height).rank()];
                    proof {
                        lemma_next_tile(
                            world@,
                            *palette,
                            world_y as int,
                            index as int,
                            chunk_col as int,
                            t as int,
                            pixels@,
                            color,
                        );
                    }
                    pixels.push(color[0]);
                    pixels.push(color[1]);
                    pixels.push(color[2]);
                    pixels.push(color[3]);
                }
            }
            assert((world_y * 16 + index) * w + size * 16 == (world_y * 16 + index + 1) * w)
                by (nonlinear_arith)
                requires
                    w == 16 * size,
            ;
        }
    }
    assert(4 * ((size * 16) * w) == 4 * w * w) by (nonlinear_arith)
        requires
            w == 16 * size,
    ;
    assert(pixels@ == bytes);
    assert forall|row: int, col: int| 0 <= row < w && 0 <= col < w implies #[trigger] rgba_at(
        pixels@,
        w,
        row,
        col,
    ) == tile_rgba(world@, *palette, row, col)@ by {
        let done = row * w + col;
        assert(0 <= done < w * w) by (nonlinear_arith)
            requires
                0 <= row < w,
                0 <= col < w,
                done == row * w + col,
        ;
        lemma_fundamental_div_mod_converse(done, w, row, col);
        assert forall|k: int| 0 <= k < 4 implies bytes[4 * done + k] == tile_rgba(
            world@,
            *palette,
            row,
            col,
        )[k] by {
            lemma_fundamental_div_mod_converse(4 * done + k, 4, done, k);
        }
        assert(rgba_at(pixels@, w, row, col) =~= tile_rgba(world@, *palette, row, col)@);
    }
    pixels
}


/// The colour of the civilization square, as red, green, blue and alpha.
pub open spec fn civ_rgba() -> Seq<u8> {
    seq![57u8, 218u8, 218u8, 240u8]
}

/// A square image `side` pixels on a side, every pixel of the civilization colour.
pub open spec fn civ_image_bytes(side: nat) -> Seq<u8> {
    Seq::new(4 * side * side, |i: int| civ_rgba()[i % 4])
}

/// The civilization image is a square: `side` rows of `side` pixels, four bytes
/// each, and the pixel in every row and column has the civilization colour.
pub proof fn lemma_civ_image_square(side: nat)
    ensures
        civ_image_bytes(side).len() == 4 * (side * side),
        forall|row: int, col: int|
            0 <= row < side && 0 <= col < side ==> #[trigger] rgba_at(
                civ_image_bytes(side),
                side as int,
                row,
                col,
            ) == civ_rgba(),
{
    let img = civ_image_bytes(side);
    assert(4 * side * side == 4 * (side * side)) by (nonlinear_arith);
    assert forall|row: int, col: int| 0 <= row < side && 0 <= col < side implies #[trigger] rgba_at(
        img,
        side as int,
        row,
        col,
    ) == civ_rgba() by {
        let p = row * side + col;
        assert(0 <= p < side * side) by (nonlinear_arith)
            requires
                0 <= row < side,
                0 <= col < side,
                p == row * side + col,
        ;
        assert forall|k: int| 0 <= k < 4 implies img[4 * p + k] == civ_rgba()[k] by {
            lemma_fundamental_div_mod_converse(4 * p + k, 4, p, k);
        }
        assert(rgba_at(img, side as int, row, col) =~= civ_rgba());
    }
}

/// Side of the civilization square in pixels: four per unit of the chosen size.
pub fn civ_side(civ_size: u8) -> (side: u8)
    requires
        civ_size * 4 <= u8::MAX,
    ensures
        side == civ_size * 4,
{
    civ_size * 4
}

/// Offset of the civilization square's centre from the cursor: half its side.
pub fn civ_offset(civ_size: u8) -> (offset: u8)
    requires
        civ_size * 2 <= u8::MAX,
    ensures
        offset == civ_size * 2,
{
    civ_size * 2
}

/// The image of the civilization square: `4 * civ_size` pixels on a side, all of
/// the civilization colour.
pub fn make_civ_img(civ_size: u8) -> (pixels: Vec<u8>)
    requires
        civ_size * 4 <= u8::MAX,
    ensures
        pixels@ == civ_image_bytes((civ_size * 4) as nat),
        pixels@.len() == 4 * ((civ_size * 4) * (civ_size * 4)),
        forall|row: int, col: int|
            0 <= row < civ_size * 4 && 0 <= col < civ_size * 4 ==> #[trigger] rgba_at(
                pixels@,
                civ_size * 4,
                row,
                col,
            ) == civ_rgba(),
{
    let side = civ_side(civ_size);
    let color: [u8; 4] = [57, 218, 218, 240];
    let mut pixels: Vec<u8> = Vec::new();
    assert(4 * (0 * side) == 0) by (nonlinear_arith);
    for y in 0..side
        invariant
            color@ == civ_rgba(),
            pixels@.len() == 4 * (y * side),
            forall|i: int| 0 <= i < pixels@.len() ==> #[trigger] pixels@[i] == civ_rgba()[i % 4],
    {
        for x in 0..side
            invariant
                color@ == civ_rgba(),
                y < side,
                pixels@.len() == 4 * (y * side + x),
                forall|i: int| 0 <= i < pixels@.len() ==> #[trigger] pixels@[i] == civ_rgba()[i % 4],
        {
            for k in 0..4usize
                invariant
                    color@ == civ_rgba(),
                    pixels@.len() == 4 * (y * side + x) + k,
                    forall|i: int| 0 <= i < pixels@.len() ==> #[trigger] pixels@[i] == civ_rgba()[i % 4],
            {
                proof {
                    lemma_fundamental_div_mod_converse(
                        pixels@.len() as int,
                        4,
                        (y * side + x) as int,
                        k as int,
                    );
                }
                pixels.push(color[k]);
            }
        }
        assert(y * side + side == (y + 1) * side) by (nonlinear_arith);
    }
    assert(4 * (side * side) == 4 * side * side) by (nonlinear_arith);
    assert(pixels@ =~= civ_image_bytes(side as nat));
    proof {
        lemma_civ_image_square(side as nat);
    }
    pixels
}

} // verus!
