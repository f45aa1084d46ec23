use vstd::prelude::*;

verus! {

/// A square of 16 by 16 tile heights, placed at chunk column `x` and chunk row `y`
/// of the world. `tiles[r][c]` is the height of the tile in row `r`, column `c`.
#[derive(Clone, Copy, Debug)]
pub struct Chunk {
    pub x: u32,
    pub y: u32,
    pub tiles: [[u32; 16]; 16],
}

/// A chunk at the origin whose tiles all have height 0.
pub open spec fn is_blank(c: Chunk) -> bool {
    &&& c.x == 0
    &&& c.y == 0
    &&& forall|r: int, k: int| 0 <= r < 16 && 0 <= k < 16 ==> #[trigger] c.tiles[r][k] == 0
}

impl Chunk {
    /// A blank chunk: at chunk position (0, 0), every tile at height 0.
    pub fn new() -> (c: Chunk)
        ensures
            is_blank(c),
    {
        Chunk { x: 0, y: 0, tiles: [[0u32; 16]; 16] }
    }
}

/// What the player chose before the world is made.
#[derive(Clone, Copy, Debug, PartialEq, Eq, Structural)]
pub struct WorldSettings {
    /// Index into the table of world sizes.
    pub mode: u8,
    /// Horizontal stretch of the height noise.
    pub scale: u32,
    /// Side of the civilization square, in tiles divided by four.
    pub civ_size: u8,
    /// Seed of the height noise.
    pub seed: u32,
}

impl WorldSettings {
    /// The settings before any choice: a mode past the size table, scale 50,
    /// civilization size 0 and seed 0.
    pub fn new() -> (s: WorldSettings)
        ensures
            s.mode == 5,
            s.scale == 50,
            s.civ_size == 0,
            s.seed == 0,
    {
        WorldSettings { mode: 5, scale: 50, civ_size: 0, seed: 0 }
    }
}

/// The side of the world in tiles for each size mode: tiny, small, normal and large.
pub open spec fn spec_world_side(mode: u8) -> Option<u32> {
    if mode == 0 {
        Some(256u32)
    } else if mode == 1 {
        Some(512u32)
    } else if mode == 2 {
        Some(1024u32)
    } else if mode == 3 {
        Some(1536u32)
    } else {
        None
    }
}

/// Number of size modes.
pub const WORLD_SIZE_COUNT: u8 = 4;

/// Looks a size mode up in the table of world sides; `None` past its end.
pub fn world_side(mode: u8) -> (side: Option<u32>)
    ensures
        side == spec_world_side(mode),
        side is Some <==> mode < WORLD_SIZE_COUNT,
{
    match mode {
        0 => Some(256),
        1 => Some(512),
        2 => Some(1024),
        3 => Some(1536),
        _ => None,
    }
}

/// Chunks along each side of the world that `World::new` makes for a mode:
/// the side from the table, or 1024 tiles where the mode is past it, over 16.
pub open spec fn spec_chunks_per_side(mode: u8) -> u32 {
    match spec_world_side(mode) {
        Some(side) => (side / 16) as u32,
        None => 64u32,
    }
}

/// A `size` by `size` grid of blank chunks.
pub fn create_chunk_grid(size: u32) -> (grid: Vec<Vec<Chunk>>)
    ensures
        grid@.len() == size,
        forall|r: int| 0 <= r < size ==> #[trigger] grid@[r]@.len() == size,
        forall|r: int, c: int| 0 <= r < size && 0 <= c < size ==> is_blank(#[trigger] grid@[r]@[c]),
{
    let mut chunks: Vec<Vec<Chunk>> = Vec::new();
    for i in 0..size as usize
        invariant
            chunks@.len() == i,
            forall|r: int| 0 <= r < i ==> #[trigger] chunks@[r]@.len() == size,
            forall|r: int, c: int| 0 <= r < i && 0 <= c < size ==> is_blank(#[trigger] chunks@[r]@[c]),
    {
        let mut row: Vec<Chunk> = Vec::new();
        for j in 0..size as usize
            invariant
                row@.len() == j,
                forall|c: int| 0 <= c < j ==> is_blank(#[trigger] row@[c]),
        {
            let chunk = Chunk::new();
            row.push(chunk);
        }
        chunks.push(row);
    }
    chunks
}

/// `chunk` is the chunk at chunk column `cx` and chunk row `cy` whose tile in row `r`,
/// column `c` has a height that `height_at` may give for world tile
/// (`16 * cx + c`, `16 * cy + r`).
pub open spec fn is_generated<F: Fn(u32, u32) -> u32>(height_at: F, cx: u32, cy: u32, chunk: Chunk) -> bool {
    &&& chunk.x == cx
    &&& chunk.y == cy
    &&& forall|r: int, c: int|
        0 <= r < 16 && 0 <= c < 16 ==> call_ensures(
            height_at,
            ((cx * 16 + c) as u32, (cy * 16 + r) as u32),
            #[trigger] chunk.tiles[r][c],
        )
}

/// Tile (`r`, `c`) of a generated chunk at (`cx`, `cy`) holds a height that the
/// height function gives at world tile (`16 * cx + c`, `16 * cy + r`): the world
/// coordinate itself, never reduced or wrapped, for any chunk position.
pub proof fn lemma_generated_tile_coordinates<F: Fn(u32, u32) -> u32>(
    height_at: F,
    cx: u32,
    cy: u32,
    chunk: Chunk,
    r: int,
    c: int,
)
    requires
        is_generated(height_at, cx, cy, chunk),
        cx * 16 + 15 <= u32::MAX,
        cy * 16 + 15 <= u32::MAX,
        0 <= r < 16,
        0 <= c < 16,
    ensures
        16 * cx + c <= u32::MAX,
        16 * cy + r <= u32::MAX,
        call_ensures(height_at, ((16 * cx + c) as u32, (16 * cy + r) as u32), chunk.tiles[r][c]),
{
    assert(chunk.tiles[r][c] == chunk.tiles[r][c]);
}

/// Fills the chunk at chunk column `chunk_num_x` and chunk row `chunk_num_y` with the
/// heights that `height_at` gives for the world coordinates of its tiles.
pub fn generate_chunk<F: Fn(u32, u32) -> u32>(chunk_num_x: u32, chunk_num_y: u32, height_at: &F) -> (chunk: Chunk)
    requires
        chunk_num_x * 16 + 15 <= u32::MAX,
        chunk_num_y * 16 + 15 <= u32::MAX,
        forall|x: u32, y: u32| call_requires(*height_at, (x, y)),
    ensures
        is_generated(*height_at, chunk_num_x, chunk_num_y, chunk),
        forall|r: int, c: int|
            0 <= r < 16 && 0 <= c < 16 ==> call_ensures(
                *height_at,
                ((16 * chunk_num_x + c) as u32, (16 * chunk_num_y + r) as u32),
                #[trigger] chunk.tiles[r][c],
            ),
{
    let mut chunk = Chunk::new();
    chunk.x = chunk_num_x;
    chunk.y = chunk_num_y;
    for y in 0..16u32
        invariant
            chunk_num_x * 16 + 15 <= u32::MAX,
            chunk_num_y * 16 + 15 <= u32::MAX,
            forall|x: u32, y: u32| call_requires(*height_at, (x, y)),
            chunk.x == chunk_num_x,
            chunk.y == chunk_num_y,
            forall|r: int, c: int|
                0 <= r < y && 0 <= c < 16 ==> call_ensures(
                    *height_at,
                    ((chunk_num_x * 16 + c) as u32, (chunk_num_y * 16 + r) as u32),
                    #[trigger] chunk.tiles[r][c],
                ),
    {
        let mut row: [u32; 16] = chunk.tiles[y as usize];
        for x in 0..16u32
            invariant
                chunk_num_x * 16 + 15 <= u32::MAX,
                chunk_num_y * 16 + 15 <= u32::MAX,
                y < 16,
                forall|x: u32, y: u32| call_requires(*height_at, (x, y)),
                forall|c: int|
                    0 <= c < x ==> call_ensures(
                        *height_at,
                        ((chunk_num_x * 16 + c) as u32, (chunk_num_y * 16 + y) as u32),
                        #[trigger] row[c],
                    ),
        {
            let value = height_at(chunk_num_x * 16 + x, chunk_num_y * 16 + y);
            row[x as usize] = value;
        }
        chunk.tiles[y as usize] = row;
    }
    chunk
}


/// The largest number of chunks along a side of any world: 1536 tiles over 16.
pub const MAX_CHUNKS_PER_SIDE: u32 = 96;

/// A square grid of chunks: `size` rows of `size` chunks each.
pub struct World {
    size: u32,
    chunks: Vec<Vec<Chunk>>,
}

impl View for World {
    type V = Seq<Seq<Chunk>>;

    /// The grid of chunks, row by row.
    closed spec fn view(&self) -> Seq<Seq<Chunk>> {
        Seq::new(self.chunks@.len(), |r: int| self.chunks@[r]@)
    }
}

impl World {
    #[verifier::type_invariant]
    closed spec fn is_square(self) -> bool {
        &&& self.size <= MAX_CHUNKS_PER_SIDE
        &&& self.chunks@.len() == self.size
        &&& forall|r: int| 0 <= r < self.size ==> #[trigger] self.chunks@[r]@.len() == self.size
    }

    /// A world of blank chunks whose side is that of the chosen mode, in chunks,
    /// or 64 chunks where the mode is past the table of sizes.
    pub fn new(settings: &WorldSettings) -> (world: World)
        ensures
            world@.len() == spec_chunks_per_side(settings.mode),
            forall|r: int, c: int|
                0 <= r < world@.len() && 0 <= c < world@.len() ==> is_blank(#[trigger] world@[r][c]),
    {
        let side = match world_side(settings.mode) {
            Some(side) => side,
            None => 1024,
        };
        let size = side / 16;
        let chunks = create_chunk_grid(size);
        let world = World { size, chunks };
        assert(world@.len() == size);
        world
    }

    /// Chunks along each side; every row holds that many chunks, and there are
    /// at most 96.
    pub fn size(&self) -> (size: u32)
        ensures
            size == self@.len(),
            size <= MAX_CHUNKS_PER_SIDE,
            forall|r: int| 0 <= r < size ==> #[trigger] self@[r].len() == size,
    {
        proof {
            use_type_invariant(self);
        }
        self.size
    }

    /// The chunk in chunk row `row`, chunk column `col`.
    pub fn chunk(&self, row: usize, col: usize) -> (chunk: &Chunk)
        requires
            row < self@.len(),
            col < self@.len(),
        ensures
            *chunk == self@[row as int][col as int],
    {
        proof {
            use_type_invariant(self);
        }
        &self.chunks[row][col]
    }
}

/// The height of the tile in row `row`, column `col` of the whole map: rows and
/// columns of tiles run across chunk borders, 16 tiles to a chunk.
pub open spec fn tile_height(world: Seq<Seq<Chunk>>, row: int, col: int) -> u32 {
    world[row / 16][col / 16].tiles[row % 16][col % 16]
}

/// In a grid whose every chunk is generated at its own grid position, each tile of
/// the map holds a height that the height function gives at that tile's own
/// coordinates: column `col` and row `row` of the whole map. No two tiles of the
/// map are sampled at the same coordinates, whatever the world's size.
pub proof fn lemma_world_samples_own_coordinates<F: Fn(u32, u32) -> u32>(
    height_at: F,
    world: Seq<Seq<Chunk>>,
    row: int,
    col: int,
)
    requires
        world.len() <= MAX_CHUNKS_PER_SIDE,
        forall|r: int| 0 <= r < world.len() ==> #[trigger] world[r].len() == world.len(),
        forall|r: int, c: int|
            0 <= r < world.len() && 0 <= c < world.len() ==> is_generated(
                height_at,
                c as u32,
                r as u32,
                #[trigger] world[r][c],
            ),
        0 <= row < 16 * world.len(),
        0 <= col < 16 * world.len(),
    ensures
        call_ensures(height_at, (col as u32, row as u32), tile_height(world, row, col)),
{
    let cr = row / 16;
    let cc = col / 16;
    assert(0 <= cr < world.len() && 0 <= cc < world.len());
    let chunk = world[cr][cc];
    assert(is_generated(height_at, cc as u32, cr as u32, chunk));
    lemma_generated_tile_coordinates(height_at, cc as u32, cr as u32, chunk, row % 16, col % 16);
    assert(16 * cc + col % 16 == col);
    assert(16 * cr + row % 16 == row);
}

/// How far the camera and the civilization square may move from the centre, along
/// each axis: half the world's side in tiles.
pub fn view_limit(world: &World) -> (limit: u32)
    ensures
        limit == 8 * world@.len(),
{
    world.size() * 8
}

/// Makes the world of the chosen size: the chunk in chunk row `y`, chunk column `x`
/// is the one that `generate_chunk` makes at (`x`, `y`) from `height_at`.
pub fn make_world<F: Fn(u32, u32) -> u32>(settings: &WorldSettings, height_at: &F) -> (world: World)
    requires
        settings.mode < WORLD_SIZE_COUNT,
        forall|x: u32, y: u32| call_requires(*height_at, (x, y)),
    ensures
        world@.len() == spec_chunks_per_side(settings.mode),
        forall|r: int| 0 <= r < world@.len() ==> #[trigger] world@[r].len() == world@.len(),
        forall|r: int, c: int|
            0 <= r < world@.len() && 0 <= c < world@.len() ==> is_generated(
                *height_at,
                c as u32,
                r as u32,
                #[trigger] world@[r][c],
            ),
        forall|row: int, col: int|
            0 <= row < 16 * world@.len() && 0 <= col < 16 * world@.len() ==> call_ensures(
                *height_at,
                (col as u32, row as u32),
                #[trigger] tile_height(world@, row, col),
            ),
{
    let side = match world_side(settings.mode) {
        Some(side) => side,
        None => 1024,
    };
    let size = side / 16;
    let mut chunks: Vec<Vec<Chunk>> = Vec::new();
    // This way we do rows of chunks, not columns of chunks
    for y in 0..size
        invariant
            size <= MAX_CHUNKS_PER_SIDE,
            forall|x: u32, y: u32| call_requires(*height_at, (x, y)),
            chunks@.len() == y,
            forall|r: int| 0 <= r < y ==> #[trigger] chunks@[r]@.len() == size,
            forall|r: int, c: int|
                0 <= r < y && 0 <= c < size ==> is_generated(
                    *height_at,
                    c as u32,
                    r as u32,
                    #[trigger] chunks@[r]@[c],
                ),
    {
        let mut row: Vec<Chunk> = Vec::new();
        for x in 0..size
            invariant
                size <= MAX_CHUNKS_PER_SIDE,
                y < size,
                forall|x: u32, y: u32| call_requires(*height_at, (x, y)),
                row@.len() == x,
                forall|c: int| 0 <= c < x ==> is_generated(*height_at, c as u32, y, #[trigger] row@[c]),
        {
            row.push(generate_chunk(x, y, height_at));
        }
        chunks.push(row);
    }
    let world = World { size, chunks };
    assert(world@.len() == size);
    assert forall|row: int, col: int|
        0 <= row < 16 * world@.len() && 0 <= col < 16 * world@.len() implies call_ensures(
        *height_at,
        (col as u32, row as u32),
        #[trigger] tile_height(world@, row, col),
    ) by {
        lemma_world_samples_own_coordinates(*height_at, world@, row, col);
    }
    world
}

} // verus!
