use vstd::prelude::*;

verus! {

/// Cell value of a wall; every other value is open floor.
pub const WALL: u8 = 1;

/// The layout of the shipped map, row by row.
pub open spec fn world_layout() -> Seq<Seq<u8>> {
    seq![
        seq![1u8, 1, 1, 1, 1, 1, 1, 1],
        seq![1u8, 0, 1, 0, 0, 0, 0, 1],
        seq![1u8, 0, 1, 0, 1, 1, 0, 1],
        seq![1u8, 0, 1, 0, 1, 0, 0, 1],
        seq![1u8, 0, 1, 0, 1, 0, 1, 1],
        seq![1u8, 0, 1, 0, 1, 0, 0, 1],
        seq![1u8, 0, 0, 0, 1, 0, 0, 1],
        seq![1u8, 1, 1, 1, 1, 1, 1, 1],
    ]
}

/// The shipped map as a grid of rows.
pub fn world_map() -> (m: [[u8; 8]; 8])
    ensures
        forall|r: int, c: int| 0 <= r < 8 && 0 <= c < 8 ==> #[trigger] m@[r]@[c] == world_layout()[r][c],
{
    let m: [[u8; 8]; 8] = [
        [1, 1, 1, 1, 1, 1, 1, 1],
        [1, 0, 1, 0, 0, 0, 0, 1],
        [1, 0, 1, 0, 1, 1, 0, 1],
        [1, 0, 1, 0, 1, 0, 0, 1],
        [1, 0, 1, 0, 1, 0, 1, 1],
        [1, 0, 1, 0, 1, 0, 0, 1],
        [1, 0, 0, 0, 1, 0, 0, 1],
        [1, 1, 1, 1, 1, 1, 1, 1],
    ];
    assert(m@ =~= seq![m@[0], m@[1], m@[2], m@[3], m@[4], m@[5], m@[6], m@[7]]);
    m
}

/// The shipped map flattened row by row, `row * 8 + col`.
pub fn single_index_map() -> (flat: [u8; 64])
    ensures
        forall|r: int, c: int| 0 <= r < 8 && 0 <= c < 8 ==> #[trigger] flat@[r * 8 + c] == world_layout()[r][c],
{
    let grid = world_map();
    let mut new_map: [u8; 64] = [0; 64];
    let mut i: usize = 0;
    while i < 8
        invariant
            i <= 8,
            forall|r: int, c: int| 0 <= r < 8 && 0 <= c < 8 ==> #[trigger] grid@[r]@[c] == world_layout()[r][c],
            forall|r: int, c: int| 0 <= r < i && 0 <= c < 8 ==> #[trigger] new_map@[r * 8 + c] == world_layout()[r][c],
        decreases 8 - i,
    {
        let mut ii: usize = 1;
        while ii <= 8
            invariant
                i < 8,
                1 <= ii <= 9,
                forall|r: int, c: int| 0 <= r < 8 && 0 <= c < 8 ==> #[trigger] grid@[r]@[c] == world_layout()[r][c],
                forall|r: int, c: int| 0 <= r < i && 0 <= c < 8 ==> #[trigger] new_map@[r * 8 + c] == world_layout()[r][c],
                forall|c: int| 0 <= c < ii - 1 ==> #[trigger] new_map@[i * 8 + c] == world_layout()[i as int][c],
            decreases 9 - ii,
        {
            new_map[i * 8 + ii - 1] = grid[i][ii - 1];
            ii += 1;
        }
        i += 1;
    }
    new_map
}

/// A rectangular grid of cells stored row by row.
#[derive(Debug)]
pub struct GameMap {
    pub width: usize,
    pub height: usize,
    pub cells: Vec<u8>,
}

impl GameMap {
    pub open spec fn wf(&self) -> bool {
        &&& 1 <= self.width <= 4096
        &&& 1 <= self.height <= 4096
        &&& self.cells@.len() == self.width * self.height
    }

    pub open spec fn in_bounds(&self, col: int, row: int) -> bool {
        0 <= col < self.width && 0 <= row < self.height
    }

    /// Cell `(col, row)` is a wall.
    pub open spec fn wall_at(&self, col: int, row: int) -> bool {
        self.cells@[row * self.width + col] == WALL
    }

    /// Every cell on the outer ring is a wall.
    pub open spec fn enclosed(&self) -> bool {
        &&& forall|c: int| 0 <= c < self.width ==> #[trigger] self.wall_at(c, 0)
            && self.wall_at(c, self.height - 1)
        &&& forall|r: int| 0 <= r < self.height ==> #[trigger] self.wall_at(0, r)
            && self.wall_at(self.width - 1, r)
    }

    /// A map from its dimensions and its cells in row order; `None` when the
    /// dimensions are out of range or disagree with the number of cells.
    pub fn new(width: usize, height: usize, cells: Vec<u8>) -> (m: Option<GameMap>)
        ensures
            m is Some <==> (1 <= width <= 4096 && 1 <= height <= 4096 && cells@.len()
                == width * height),
            m matches Some(g) ==> g.wf() && g.width == width && g.height == height && g.cells
                == cells,
    {
        if 1 <= width && width <= 4096 && 1 <= height && height <= 4096 {
            assert(width * height <= 4096 * 4096) by (nonlinear_arith)
                requires width <= 4096, height <= 4096;
            if cells.len() == width * height {
                return Some(GameMap { width, height, cells });
            }
        }
        None
    }

    /// The shipped 8 x 8 map.
    pub fn world() -> (m: GameMap)
        ensures
            m.wf(),
            m.width == 8,
            m.height == 8,
            forall|r: int, c: int|
                0 <= r < 8 && 0 <= c < 8 ==> #[trigger] m.cells@[r * 8 + c] == world_layout()[r][c],
    {
        let flat = single_index_map();
        let mut cells: Vec<u8> = Vec::new();
        let mut k: usize = 0;
        while k < 64
            invariant
                k <= 64,
                cells@.len() == k,
                forall|j: int| 0 <= j < k ==> #[trigger] cells@[j] == flat@[j],
            decreases 64 - k,
        {
            cells.push(flat[k]);
            k += 1;
        }
        GameMap { width: 8, height: 8, cells }
    }

    /// Whether cell `(col, row)` is a wall.
    pub fn is_wall(&self, col: usize, row: usize) -> (b: bool)
        requires
            self.wf(),
            self.in_bounds(col as int, row as int),
        ensures
            b == self.wall_at(col as int, row as int),
    {
        proof {
            lemma_cell_index(self.width as int, self.height as int, col as int, row as int);
            assert(self.width * self.height <= 4096 * 4096) by (nonlinear_arith)
                requires self.width <= 4096, self.height <= 4096;
        }
        self.cells[row * self.width + col] == WALL
    }
}

/// A cell inside a `width` x `height` grid has a row-order index inside it.
pub proof fn lemma_cell_index(width: int, height: int, col: int, row: int)
    requires
        0 <= col < width,
        0 <= row < height,
    ensures
        0 <= row * width + col < width * height,
{
    assert(row * width + col < width * height) by (nonlinear_arith)
        requires 0 <= col < width, 0 <= row < height;
    assert(row * width >= 0) by (nonlinear_arith) requires 0 <= row, 0 <= width;
}

} // verus!
