use vstd::prelude::*;

use crate::ldtk::converter::rows_view;

verus! {

// ---------------------------------------------------------------------------
// Tile-grid helpers
// ---------------------------------------------------------------------------

/// `rows` rows of `cols` cells, every cell `v`.
pub open spec fn filled(cols: nat, rows: nat, v: u8) -> Seq<Seq<u8>> {
    Seq::new(rows, |r: int| Seq::new(cols, |c: int| v))
}

/// A `rows` x `cols` grid of air (0).
pub fn empty_grid(cols: usize, rows: usize) -> (grid: Vec<Vec<u8>>)
    ensures
        rows_view(grid@) == filled(cols as nat, rows as nat, 0),
{
    let mut grid: Vec<Vec<u8>> = Vec::new();
    let mut r: usize = 0;
    while r < rows
        invariant
            r <= rows,
            grid@.len() == r,
            forall|k: int| 0 <= k < r ==> #[trigger] grid@[k]@ == Seq::new(cols as nat, |c: int| 0u8),
        decreases rows - r,
    {
        let mut row: Vec<u8> = Vec::new();
        let mut c: usize = 0;
        while c < cols
            invariant
                c <= cols,
                row@ == Seq::new(c as nat, |k: int| 0u8),
            decreases cols - c,
        {
            row.push(0u8);
            c = c + 1;
            assert(row@ =~= Seq::new(c as nat, |k: int| 0u8));
        }
        grid.push(row);
        r = r + 1;
    }
    assert(rows_view(grid@) =~= filled(cols as nat, rows as nat, 0));
    grid
}

/// A row of `cols` solid cells (1).
pub fn solid_row(cols: usize) -> (row: Vec<u8>)
    ensures
        row@ == Seq::new(cols as nat, |c: int| 1u8),
{
    let mut row: Vec<u8> = Vec::new();
    let mut c: usize = 0;
    while c < cols
        invariant
            c <= cols,
            row@ == Seq::new(c as nat, |k: int| 1u8),
        decreases cols - c,
    {
        row.push(1u8);
        c = c + 1;
        assert(row@ =~= Seq::new(c as nat, |k: int| 1u8));
    }
    row
}

/// `row` with cells `col_start..=col_end` set to `v`.
pub open spec fn fill_range(row: Seq<u8>, col_start: int, col_end: int, v: u8) -> Seq<u8> {
    Seq::new(row.len(), |c: int| if col_start <= c <= col_end { v } else { row[c] })
}

/// Set tiles in `row` from `col_start` to `col_end` (inclusive) to value 2
/// (platform tile); an empty range changes nothing.
pub fn set_platform(grid: &mut Vec<Vec<u8>>, row: usize, col_start: usize, col_end: usize)
    requires
        col_start <= col_end ==> row < old(grid)@.len() && col_end < old(grid)@[row as int]@.len(),
    ensures
        rows_view(final(grid)@) == if col_start <= col_end {
            rows_view(old(grid)@).update(
                row as int,
                fill_range(old(grid)@[row as int]@, col_start as int, col_end as int, 2),
            )
        } else {
            rows_view(old(grid)@)
        },
{
    if col_start > col_end {
        return;
    }
    let ghost g0 = grid@;
    let len = grid[row].len();
    let mut col = col_start;
    while col <= col_end
        invariant
            row < grid@.len(),
            len == g0[row as int]@.len(),
            col_end < len,
            grid@.len() == g0.len(),
            col_end < g0[row as int]@.len(),
            col_start <= col,
            col <= col_end + 1,
            forall|k: int| 0 <= k < grid@.len() && k != row ==> #[trigger] grid@[k] == g0[k],
            grid@[row as int]@ == fill_range(g0[row as int]@, col_start as int, col as int - 1, 2),
        decreases col_end + 1 - col,
    {
        grid[row].set(col, 2);
        proof {
            assert(grid@[row as int]@ =~= fill_range(g0[row as int]@, col_start as int, col as int, 2));
        }
        col = col + 1;
    }
    assert(rows_view(grid@) =~= rows_view(g0).update(
        row as int,
        fill_range(g0[row as int]@, col_start as int, col_end as int, 2),
    ));
}

/// Set the left and right border tiles of `row` to value 1 (solid).
pub fn set_walls(grid: &mut Vec<Vec<u8>>, row: usize, cols: usize)
    requires
        row < old(grid)@.len(),
        1 <= cols <= old(grid)@[row as int]@.len(),
    ensures
        rows_view(final(grid)@) == rows_view(old(grid)@).update(
            row as int,
            old(grid)@[row as int]@.update(0, 1).update(cols - 1, 1),
        ),
{
    grid[row].set(0, 1);
    grid[row].set(cols - 1, 1);
    assert(rows_view(grid@) =~= rows_view(old(grid)@).update(
        row as int,
        old(grid)@[row as int]@.update(0, 1).update(cols - 1, 1),
    ));
}

// ---------------------------------------------------------------------------
// Layouts: solid rows, walled rows and platform runs
// ---------------------------------------------------------------------------

/// A run of platform tiles: `row`, columns `col_start..=col_end`.
#[derive(Debug, Clone, Copy, PartialEq, Eq, Structural)]
pub struct Platform {
    pub row: usize,
    pub col_start: usize,
    pub col_end: usize,
}

/// `r` is one of the rows listed in `s`.
pub open spec fn lists(s: Seq<usize>, r: int) -> bool {
    exists|i: int| 0 <= i < s.len() && s[i] == r
}

/// Some platform of `ps` covers cell (`r`, `c`).
pub open spec fn covered(ps: Seq<Platform>, r: int, c: int) -> bool {
    exists|i: int| 0 <= i < ps.len() && ps[i].row == r && ps[i].col_start <= c <= ps[i].col_end
}

/// The cell (`r`, `c`) of a layout: platform (2) where a platform covers it,
/// else solid (1) on a full row or on the outer columns of a walled row,
/// else air (0).
pub open spec fn layout_cell(
    cols: nat,
    full: Seq<usize>,
    walls: Seq<usize>,
    ps: Seq<Platform>,
    r: int,
    c: int,
) -> u8 {
    if covered(ps, r, c) {
        2
    } else if lists(full, r) || (lists(walls, r) && (c == 0 || c == cols - 1)) {
        1
    } else {
        0
    }
}

/// The whole `rows` x `cols` grid of a layout.
pub open spec fn layout(
    cols: nat,
    rows: nat,
    full: Seq<usize>,
    walls: Seq<usize>,
    ps: Seq<Platform>,
) -> Seq<Seq<u8>> {
    Seq::new(rows, |r: int| Seq::new(cols, |c: int| layout_cell(cols, full, walls, ps, r, c)))
}

/// The inputs that `build_layout` can draw: every listed row inside the grid,
/// walls only on a grid with at least one column, every non-empty platform run
/// inside the grid.
pub open spec fn layout_fits(
    cols: nat,
    rows: nat,
    full: Seq<usize>,
    walls: Seq<usize>,
    ps: Seq<Platform>,
) -> bool {
    &&& forall|i: int| 0 <= i < full.len() ==> #[trigger] full[i] < rows
    &&& forall|i: int| 0 <= i < walls.len() ==> #[trigger] walls[i] < rows
    &&& walls.len() > 0 ==> cols >= 1
    &&& forall|i: int|
        0 <= i < ps.len() ==> (#[trigger] ps[i]).col_start <= ps[i].col_end ==> ps[i].row < rows
            && ps[i].col_end < cols
}

proof fn lemma_lists_push(s: Seq<usize>, x: usize, r: int)
    ensures
        lists(s.push(x), r) <==> lists(s, r) || x == r,
{
    if lists(s, r) {
        let i = choose|i: int| 0 <= i < s.len() && s[i] == r;
        assert(s.push(x)[i] == r);
    }
    if x == r {
        assert(s.push(x)[s.len() as int] == r);
    }
    if lists(s.push(x), r) {
        let i = choose|i: int| 0 <= i < s.push(x).len() && s.push(x)[i] == r;
        if i < s.len() {
            assert(s[i] == r);
        }
    }
}

proof fn lemma_covered_push(ps: Seq<Platform>, p: Platform, r: int, c: int)
    ensures
        covered(ps.push(p), r, c) <==> covered(ps, r, c) || (p.row == r && p.col_start <= c
            <= p.col_end),
{
    let q = ps.push(p);
    if covered(ps, r, c) {
        let i = choose|i: int|
            0 <= i < ps.len() && ps[i].row == r && ps[i].col_start <= c <= ps[i].col_end;
        assert(q[i] == ps[i]);
    }
    if p.row == r && p.col_start <= c <= p.col_end {
        assert(q[ps.len() as int] == p);
    }
    if covered(q, r, c) {
        let i = choose|i: int|
            0 <= i < q.len() && q[i].row == r && q[i].col_start <= c <= q[i].col_end;
        if i < ps.len() {
            assert(ps[i] == q[i]);
        }
    }
}

/// Draw a layout: first the full rows, then the walls, then the platforms.
pub fn build_layout(
    cols: usize,
    rows: usize,
    full_rows: &[usize],
    wall_rows: &[usize],
    platforms: &[Platform],
) -> (grid: Vec<Vec<u8>>)
    requires
        layout_fits(cols as nat, rows as nat, full_rows@, wall_rows@, platforms@),
    ensures
        rows_view(grid@) == layout(cols as nat, rows as nat, full_rows@, wall_rows@, platforms@),
{
    let mut grid = empty_grid(cols, rows);
    proof {
        let want = layout(cols as nat, rows as nat, full_rows@.take(0), Seq::empty(), Seq::empty());
        assert forall|r: int| 0 <= r < rows implies rows_view(grid@)[r] =~= want[r] by {
            assert forall|c: int| 0 <= c < cols implies rows_view(grid@)[r][c] == want[r][c] by {
                assert(!covered(Seq::empty(), r, c));
                assert(!lists(full_rows@.take(0), r));
                assert(!lists(Seq::empty(), r));
            }
        }
        assert(rows_view(grid@) =~= want);
        assert forall|r: int| 0 <= r < rows implies (#[trigger] grid@[r])@.len() == cols by {
            assert(rows_view(grid@)[r].len() == cols);
        }
    }
    let mut i: usize = 0;
    while i < full_rows.len()
        invariant
            i <= full_rows@.len(),
            layout_fits(cols as nat, rows as nat, full_rows@, wall_rows@, platforms@),
            grid@.len() == rows,
            forall|r: int| 0 <= r < rows ==> (#[trigger] grid@[r])@.len() == cols,
            rows_view(grid@) == layout(cols as nat, rows as nat, full_rows@.take(i as int), Seq::<usize>::empty(), Seq::<Platform>::empty()),
        decreases full_rows@.len() - i,
    {
        let f = full_rows[i];
        let ghost before = rows_view(grid@);
        grid.set(f, solid_row(cols));
        proof {
            let s = full_rows@.take(i as int);
            assert(full_rows@.take(i + 1) =~= s.push(f));
            let want = layout(cols as nat, rows as nat, full_rows@.take(i + 1), Seq::<usize>::empty(), Seq::<Platform>::empty());
            assert forall|r: int| 0 <= r < rows implies rows_view(grid@)[r] =~= want[r] by {
                assert forall|c: int| 0 <= c < cols implies rows_view(grid@)[r][c] == want[r][c] by {
                    lemma_lists_push(s, f, r);
                    assert(!covered(Seq::<Platform>::empty(), r, c));
                    assert(!lists(Seq::<usize>::empty(), r));
                    assert(before[r][c] == layout_cell(cols as nat, s, Seq::empty(), Seq::empty(), r, c));
                }
            }
            assert(rows_view(grid@) =~= want);
            assert forall|r: int| 0 <= r < rows implies (#[trigger] grid@[r])@.len() == cols by {
                assert(rows_view(grid@)[r].len() == cols);
            }
        }
        i = i + 1;
    }
    assert(full_rows@.take(full_rows@.len() as int) =~= full_rows@);
    assert(wall_rows@.take(0) =~= Seq::<usize>::empty());
    let mut j: usize = 0;
    while j < wall_rows.len()
        invariant
            j <= wall_rows@.len(),
            layout_fits(cols as nat, rows as nat, full_rows@, wall_rows@, platforms@),
            grid@.len() == rows,
            forall|r: int| 0 <= r < rows ==> (#[trigger] grid@[r])@.len() == cols,
            rows_view(grid@) == layout(cols as nat, rows as nat, full_rows@, wall_rows@.take(j as int), Seq::<Platform>::empty()),
        decreases wall_rows@.len() - j,
    {
        let w = wall_rows[j];
        let ghost before = rows_view(grid@);
        set_walls(&mut grid, w, cols);
        proof {
            let s = wall_rows@.take(j as int);
            assert(wall_rows@.take(j + 1) =~= s.push(w));
            let want = layout(cols as nat, rows as nat, full_rows@, wall_rows@.take(j + 1), Seq::<Platform>::empty());
            assert forall|r: int| 0 <= r < rows implies rows_view(grid@)[r] =~= want[r] by {
                assert forall|c: int| 0 <= c < cols implies rows_view(grid@)[r][c] == want[r][c] by {
                    lemma_lists_push(s, w, r);
                    assert(!covered(Seq::<Platform>::empty(), r, c));
                    assert(before[r][c] == layout_cell(cols as nat, full_rows@, s, Seq::empty(), r, c));
                }
            }
            assert(rows_view(grid@) =~= want);
            assert forall|r: int| 0 <= r < rows implies (#[trigger] grid@[r])@.len() == cols by {
                assert(rows_view(grid@)[r].len() == cols);
            }
        }
        j = j + 1;
    }
    assert(wall_rows@.take(wall_rows@.len() as int) =~= wall_rows@);
    assert(platforms@.take(0) =~= Seq::<Platform>::empty());
    let mut k: usize = 0;
    while k < platforms.len()
        invariant
            k <= platforms@.len(),
            layout_fits(cols as nat, rows as nat, full_rows@, wall_rows@, platforms@),
            grid@.len() == rows,
            forall|r: int| 0 <= r < rows ==> (#[trigger] grid@[r])@.len() == cols,
            rows_view(grid@) == layout(cols as nat, rows as nat, full_rows@, wall_rows@, platforms@.take(k as int)),
        decreases platforms@.len() - k,
    {
        let p = platforms[k];
        let ghost before = rows_view(grid@);
        set_platform(&mut grid, p.row, p.col_start, p.col_end);
        proof {
            let s = platforms@.take(k as int);
            assert(platforms@.take(k + 1) =~= s.push(p));
            let want = layout(cols as nat, rows as nat, full_rows@, wall_rows@, platforms@.take(k + 1));
            assert forall|r: int| 0 <= r < rows implies rows_view(grid@)[r] =~= want[r] by {
                assert forall|c: int| 0 <= c < cols implies rows_view(grid@)[r][c] == want[r][c] by {
                    lemma_covered_push(s, p, r, c);
                    assert(before[r][c] == layout_cell(cols as nat, full_rows@, wall_rows@, s, r, c));
                }
            }
            assert(rows_view(grid@) =~= want);
            assert forall|r: int| 0 <= r < rows implies (#[trigger] grid@[r])@.len() == cols by {
                assert(rows_view(grid@)[r].len() == cols);
            }
        }
        k = k + 1;
    }
    assert(platforms@.take(platforms@.len() as int) =~= platforms@);
    grid
}


/// A platform run as a value, for stating layouts.
pub open spec fn plat(row: usize, col_start: usize, col_end: usize) -> Platform {
    Platform { row, col_start, col_end }
}

/// The tile grid of the Forest street layer: 96 x 22 cells.
pub open spec fn forest_layer0_layout() -> Seq<Seq<u8>> {
    layout(
        96,
        22,
        seq![0usize, 1, 2],
        Seq::empty(),
        seq![
            plat(6, 4, 8),
            plat(6, 22, 26),
            plat(6, 35, 39),
            plat(6, 55, 60),
            plat(6, 67, 71),
            plat(6, 83, 87),
            plat(10, 13, 18),
            plat(10, 44, 46),
            plat(10, 75, 80),
            plat(14, 48, 52),
            plat(14, 68, 72),
        ],
    )
}

/// Draws the tile grid of the Forest street layer.
pub fn forest_layer0_tiles() -> (grid: Vec<Vec<u8>>)
    ensures
        rows_view(grid@) == forest_layer0_layout(),
{
    let full: Vec<usize> = vec![0, 1, 2];
    let walls: Vec<usize> = vec![];
    let platforms: Vec<Platform> = vec![
        Platform { row: 6, col_start: 4, col_end: 8 },
        Platform { row: 6, col_start: 22, col_end: 26 },
        Platform { row: 6, col_start: 35, col_end: 39 },
        Platform { row: 6, col_start: 55, col_end: 60 },
        Platform { row: 6, col_start: 67, col_end: 71 },
        Platform { row: 6, col_start: 83, col_end: 87 },
        Platform { row: 10, col_start: 13, col_end: 18 },
        Platform { row: 10, col_start: 44, col_end: 46 },
        Platform { row: 10, col_start: 75, col_end: 80 },
        Platform { row: 14, col_start: 48, col_end: 52 },
        Platform { row: 14, col_start: 68, col_end: 72 },
    ];
    assert(full@ == seq![0usize, 1, 2]);
    assert(walls@ == Seq::<usize>::empty());
    build_layout(96, 22, full.as_slice(), walls.as_slice(), platforms.as_slice())
}


/// The tile grid of the Forest cave sublevel: 32 x 18 cells.
pub open spec fn forest_layer1_layout() -> Seq<Seq<u8>> {
    layout(
        32,
        18,
        seq![0usize, 1, 16, 17],
        seq![2usize, 3, 4, 5, 6, 7, 8, 9, 10, 11, 12, 13, 14, 15],
        seq![
            plat(5, 5, 9),
            plat(5, 22, 26),
            plat(9, 12, 16),
            plat(12, 20, 24),
        ],
    )
}

/// Draws the tile grid of the Forest cave sublevel.
pub fn forest_layer1_tiles() -> (grid: Vec<Vec<u8>>)
    ensures
        rows_view(grid@) == forest_layer1_layout(),
{
    let full: Vec<usize> = vec![0, 1, 16, 17];
    let walls: Vec<usize> = vec![2, 3, 4, 5, 6, 7, 8, 9, 10, 11, 12, 13, 14, 15];
    let platforms: Vec<Platform> = vec![
        Platform { row: 5, col_start: 5, col_end: 9 },
        Platform { row: 5, col_start: 22, col_end: 26 },
        Platform { row: 9, col_start: 12, col_end: 16 },
        Platform { row: 12, col_start: 20, col_end: 24 },
    ];
    assert(full@ == seq![0usize, 1, 16, 17]);
    assert(walls@ == seq![2usize, 3, 4, 5, 6, 7, 8, 9, 10, 11, 12, 13, 14, 15]);
    build_layout(32, 18, full.as_slice(), walls.as_slice(), platforms.as_slice())
}

/// The tile grid of the Forest treetop sublevel: 96 x 22 cells.
pub open spec fn forest_layer2_layout() -> Seq<Seq<u8>> {
    layout(
        96,
        22,
        seq![0usize, 1, 2],
        Seq::empty(),
        seq![
            plat(6, 6, 10),
            plat(6, 32, 36),
            plat(6, 62, 66),
            plat(6, 88, 91),
            plat(10, 16, 20),
            plat(10, 48, 52),
            plat(10, 78, 82),
            plat(14, 25, 29),
            plat(14, 65, 69),
        ],
    )
}

/// Draws the tile grid of the Forest treetop sublevel.
pub fn forest_layer2_tiles() -> (grid: Vec<Vec<u8>>)
    ensures
        rows_view(grid@) == forest_layer2_layout(),
{
    let full: Vec<usize> = vec![0, 1, 2];
    let walls: Vec<usize> = vec![];
    let platforms: Vec<Platform> = vec![
        Platform { row: 6, col_start: 6, col_end: 10 },
        Platform { row: 6, col_start: 32, col_end: 36 },
        Platform { row: 6, col_start: 62, col_end: 66 },
        Platform { row: 6, col_start: 88, col_end: 91 },
        Platform { row: 10, col_start: 16, col_end: 20 },
        Platform { row: 10, col_start: 48, col_end: 52 },
        Platform { row: 10, col_start: 78, col_end: 82 },
        Platform { row: 14, col_start: 25, col_end: 29 },
        Platform { row: 14, col_start: 65, col_end: 69 },
    ];
    assert(full@ == seq![0usize, 1, 2]);
    assert(walls@ == Seq::<usize>::empty());
    build_layout(96, 22, full.as_slice(), walls.as_slice(), platforms.as_slice())
}

/// The tile grid of the Subdivision street layer: 96 x 22 cells.
pub open spec fn subdivision_layer0_layout() -> Seq<Seq<u8>> {
    layout(
        96,
        22,
        seq![0usize, 1, 2],
        Seq::empty(),
        seq![
            plat(6, 5, 9),
            plat(6, 20, 25),
            plat(6, 38, 43),
            plat(6, 56, 61),
            plat(6, 72, 77),
            plat(6, 85, 89),
            plat(10, 12, 17),
            plat(10, 28, 33),
            plat(10, 45, 50),
            plat(10, 63, 68),
            plat(10, 76, 81),
            plat(14, 30, 34),
            plat(14, 65, 69),
        ],
    )
}

/// Draws the tile grid of the Subdivision street layer.
pub fn subdivision_layer0_tiles() -> (grid: Vec<Vec<u8>>)
    ensures
        rows_view(grid@) == subdivision_layer0_layout(),
{
    let full: Vec<usize> = vec![0, 1, 2];
    let walls: Vec<usize> = vec![];
    let platforms: Vec<Platform> = vec![
        Platform { row: 6, col_start: 5, col_end: 9 },
        Platform { row: 6, col_start: 20, col_end: 25 },
        Platform { row: 6, col_start: 38, col_end: 43 },
        Platform { row: 6, col_start: 56, col_end: 61 },
        Platform { row: 6, col_start: 72, col_end: 77 },
        Platform { row: 6, col_start: 85, col_end: 89 },
        Platform { row: 10, col_start: 12, col_end: 17 },
        Platform { row: 10, col_start: 28, col_end: 33 },
        Platform { row: 10, col_start: 45, col_end: 50 },
        Platform { row: 10, col_start: 63, col_end: 68 },
        Platform { row: 10, col_start: 76, col_end: 81 },
        Platform { row: 14, col_start: 30, col_end: 34 },
        Platform { row: 14, col_start: 65, col_end: 69 },
    ];
    assert(full@ == seq![0usize, 1, 2]);
    assert(walls@ == Seq::<usize>::empty());
    build_layout(96, 22, full.as_slice(), walls.as_slice(), platforms.as_slice())
}

/// The tile grid of the Subdivision sewers sublevel: 32 x 18 cells.
pub open spec fn subdivision_layer1_layout() -> Seq<Seq<u8>> {
    layout(
        32,
        18,
        seq![0usize, 1, 16, 17],
        seq![2usize, 3, 4, 5, 6, 7, 8, 9, 10, 11, 12, 13, 14, 15],
        seq![
            plat(5, 4, 8),
            plat(5, 20, 24),
            plat(9, 10, 14),
            plat(9, 25, 29),
            plat(12, 15, 19),
        ],
    )
}

/// Draws the tile grid of the Subdivision sewers sublevel.
pub fn subdivision_layer1_tiles() -> (grid: Vec<Vec<u8>>)
    ensures
        rows_view(grid@) == subdivision_layer1_layout(),
{
    let full: Vec<usize> = vec![0, 1, 16, 17];
    let walls: Vec<usize> = vec![2, 3, 4, 5, 6, 7, 8, 9, 10, 11, 12, 13, 14, 15];
    let platforms: Vec<Platform> = vec![
        Platform { row: 5, col_start: 4, col_end: 8 },
        Platform { row: 5, col_start: 20, col_end: 24 },
        Platform { row: 9, col_start: 10, col_end: 14 },
        Platform { row: 9, col_start: 25, col_end: 29 },
        Platform { row: 12, col_start: 15, col_end: 19 },
    ];
    assert(full@ == seq![0usize, 1, 16, 17]);
    assert(walls@ == seq![2usize, 3, 4, 5, 6, 7, 8, 9, 10, 11, 12, 13, 14, 15]);
    build_layout(32, 18, full.as_slice(), walls.as_slice(), platforms.as_slice())
}

/// The tile grid of the Subdivision rooftop sublevel: 96 x 22 cells.
pub open spec fn subdivision_layer2_layout() -> Seq<Seq<u8>> {
    layout(
        96,
        22,
        seq![0usize, 1, 2],
        Seq::empty(),
        seq![
            plat(6, 8, 12),
            plat(6, 30, 34),
            plat(6, 60, 64),
            plat(6, 86, 90),
            plat(10, 18, 22),
            plat(10, 24, 29),
            plat(10, 50, 54),
            plat(10, 66, 71),
            plat(10, 80, 84),
            plat(14, 26, 30),
            plat(14, 68, 72),
        ],
    )
}

/// Draws the tile grid of the Subdivision rooftop sublevel.
pub fn subdivision_layer2_tiles() -> (grid: Vec<Vec<u8>>)
    ensures
        rows_view(grid@) == subdivision_layer2_layout(),
{
    let full: Vec<usize> = vec![0, 1, 2];
    let walls: Vec<usize> = vec![];
    let platforms: Vec<Platform> = vec![
        Platform { row: 6, col_start: 8, col_end: 12 },
        Platform { row: 6, col_start: 30, col_end: 34 },
        Platform { row: 6, col_start: 60, col_end: 64 },
        Platform { row: 6, col_start: 86, col_end: 90 },
        Platform { row: 10, col_start: 18, col_end: 22 },
        Platform { row: 10, col_start: 24, col_end: 29 },
        Platform { row: 10, col_start: 50, col_end: 54 },
        Platform { row: 10, col_start: 66, col_end: 71 },
        Platform { row: 10, col_start: 80, col_end: 84 },
        Platform { row: 14, col_start: 26, col_end: 30 },
        Platform { row: 14, col_start: 68, col_end: 72 },
    ];
    assert(full@ == seq![0usize, 1, 2]);
    assert(walls@ == Seq::<usize>::empty());
    build_layout(96, 22, full.as_slice(), walls.as_slice(), platforms.as_slice())
}

/// The tile grid of the City street layer: 96 x 44 cells.
pub open spec fn city_layer0_layout() -> Seq<Seq<u8>> {
    layout(
        96,
        44,
        seq![0usize, 1, 2],
        Seq::empty(),
        seq![
            plat(6, 5, 9),
            plat(6, 20, 25),
            plat(6, 38, 43),
            plat(6, 56, 61),
            plat(6, 72, 77),
            plat(6, 85, 89),
            plat(8, 12, 17),
            plat(8, 42, 47),
            plat(8, 68, 73),
            plat(10, 10, 15),
            plat(10, 28, 33),
            plat(10, 50, 55),
            plat(10, 70, 75),
            plat(10, 85, 90),
            plat(14, 18, 23),
            plat(14, 40, 45),
            plat(14, 62, 67),
            plat(14, 82, 87),
            plat(16, 48, 53),
            plat(18, 25, 30),
            plat(18, 55, 60),
            plat(18, 78, 83),
            plat(20, 65, 70),
            plat(22, 15, 20),
            plat(22, 45, 50),
            plat(22, 75, 80),
            plat(24, 22, 27),
            plat(24, 52, 57),
            plat(24, 70, 75),
            plat(26, 30, 35),
            plat(26, 60, 65),
            plat(26, 78, 83),
            plat(30, 20, 25),
            plat(30, 50, 55),
            plat(30, 80, 85),
        ],
    )
}

/// Draws the tile grid of the City street layer.
pub fn city_layer0_tiles() -> (grid: Vec<Vec<u8>>)
    ensures
        rows_view(grid@) == city_layer0_layout(),
{
    let full: Vec<usize> = vec![0, 1, 2];
    let walls: Vec<usize> = vec![];
    let platforms: Vec<Platform> = vec![
        Platform { row: 6, col_start: 5, col_end: 9 },
        Platform { row: 6, col_start: 20, col_end: 25 },
        Platform { row: 6, col_start: 38, col_end: 43 },
        Platform { row: 6, col_start: 56, col_end: 61 },
        Platform { row: 6, col_start: 72, col_end: 77 },
        Platform { row: 6, col_start: 85, col_end: 89 },
        Platform { row: 8, col_start: 12, col_end: 17 },
        Platform { row: 8, col_start: 42, col_end: 47 },
        Platform { row: 8, col_start: 68, col_end: 73 },
        Platform { row: 10, col_start: 10, col_end: 15 },
        Platform { row: 10, col_start: 28, col_end: 33 },
        Platform { row: 10, col_start: 50, col_end: 55 },
        Platform { row: 10, col_start: 70, col_end: 75 },
        Platform { row: 10, col_start: 85, col_end: 90 },
        Platform { row: 14, col_start: 18, col_end: 23 },
        Platform { row: 14, col_start: 40, col_end: 45 },
        Platform { row: 14, col_start: 62, col_end: 67 },
        Platform { row: 14, col_start: 82, col_end: 87 },
        Platform { row: 16, col_start: 48, col_end: 53 },
        Platform { row: 18, col_start: 25, col_end: 30 },
        Platform { row: 18, col_start: 55, col_end: 60 },
        Platform { row: 18, col_start: 78, col_end: 83 },
        Platform { row: 20, col_start: 65, col_end: 70 },
        Platform { row: 22, col_start: 15, col_end: 20 },
        Platform { row: 22, col_start: 45, col_end: 50 },
        Platform { row: 22, col_start: 75, col_end: 80 },
        Platform { row: 24, col_start: 22, col_end: 27 },
        Platform { row: 24, col_start: 52, col_end: 57 },
        Platform { row: 24, col_start: 70, col_end: 75 },
        Platform { row: 26, col_start: 30, col_end: 35 },
        Platform { row: 26, col_start: 60, col_end: 65 },
        Platform { row: 26, col_start: 78, col_end: 83 },
        Platform { row: 30, col_start: 20, col_end: 25 },
        Platform { row: 30, col_start: 50, col_end: 55 },
        Platform { row: 30, col_start: 80, col_end: 85 },
    ];
    assert(full@ == seq![0usize, 1, 2]);
    assert(walls@ == Seq::<usize>::empty());
    build_layout(96, 44, full.as_slice(), walls.as_slice(), platforms.as_slice())
}

/// The tile grid of the City subway sublevel: 32 x 18 cells.
pub open spec fn city_layer1_layout() -> Seq<Seq<u8>> {
    layout(
        32,
        18,
        seq![0usize, 1, 16, 17],
        seq![2usize, 3, 4, 5, 6, 7, 8, 9, 10, 11, 12, 13, 14, 15],
        seq![
            plat(4, 6, 10),
            plat(4, 22, 26),
            plat(8, 13, 17),
            plat(11, 4, 8),
            plat(11, 24, 28),
        ],
    )
}

/// Draws the tile grid of the City subway sublevel.
pub fn city_layer1_tiles() -> (grid: Vec<Vec<u8>>)
    ensures
        rows_view(grid@) == city_layer1_layout(),
{
    let full: Vec<usize> = vec![0, 1, 16, 17];
    let walls: Vec<usize> = vec![2, 3, 4, 5, 6, 7, 8, 9, 10, 11, 12, 13, 14, 15];
    let platforms: Vec<Platform> = vec![
        Platform { row: 4, col_start: 6, col_end: 10 },
        Platform { row: 4, col_start: 22, col_end: 26 },
        Platform { row: 8, col_start: 13, col_end: 17 },
        Platform { row: 11, col_start: 4, col_end: 8 },
        Platform { row: 11, col_start: 24, col_end: 28 },
    ];
    assert(full@ == seq![0usize, 1, 16, 17]);
    assert(walls@ == seq![2usize, 3, 4, 5, 6, 7, 8, 9, 10, 11, 12, 13, 14, 15]);
    build_layout(32, 18, full.as_slice(), walls.as_slice(), platforms.as_slice())
}

/// The tile grid of the City rooftop sublevel: 96 x 44 cells.
pub open spec fn city_layer2_layout() -> Seq<Seq<u8>> {
    layout(
        96,
        44,
        seq![0usize, 1, 2],
        Seq::empty(),
        seq![
            plat(4, 6, 11),
            plat(4, 28, 33),
            plat(4, 52, 57),
            plat(4, 78, 83),
            plat(6, 10, 14),
            plat(6, 35, 39),
            plat(6, 60, 64),
            plat(6, 86, 90),
            plat(8, 20, 25),
            plat(8, 48, 53),
            plat(8, 72, 77),
            plat(10, 15, 20),
            plat(10, 38, 43),
            plat(10, 65, 70),
            plat(10, 85, 90),
            plat(14, 25, 30),
            plat(14, 55, 60),
            plat(16, 65, 70),
            plat(18, 12, 17),
            plat(18, 42, 47),
            plat(18, 72, 77),
            plat(20, 20, 25),
            plat(22, 30, 35),
            plat(22, 60, 65),
            plat(26, 20, 25),
            plat(26, 50, 55),
            plat(28, 32, 37),
            plat(28, 60, 65),
            plat(30, 40, 45),
            plat(30, 70, 75),
        ],
    )
}

/// Draws the tile grid of the City rooftop sublevel.
pub fn city_layer2_tiles() -> (grid: Vec<Vec<u8>>)
    ensures
        rows_view(grid@) == city_layer2_layout(),
{
    let full: Vec<usize> = vec![0, 1, 2];
    let walls: Vec<usize> = vec![];
    let platforms: Vec<Platform> = vec![
        Platform { row: 4, col_start: 6, col_end: 11 },
        Platform { row: 4, col_start: 28, col_end: 33 },
        Platform { row: 4, col_start: 52, col_end: 57 },
        Platform { row: 4, col_start: 78, col_end: 83 },
        Platform { row: 6, col_start: 10, col_end: 14 },
        Platform { row: 6, col_start: 35, col_end: 39 },
        Platform { row: 6, col_start: 60, col_end: 64 },
        Platform { row: 6, col_start: 86, col_end: 90 },
        Platform { row: 8, col_start: 20, col_end: 25 },
        Platform { row: 8, col_start: 48, col_end: 53 },
        Platform { row: 8, col_start: 72, col_end: 77 },
        Platform { row: 10, col_start: 15, col_end: 20 },
        Platform { row: 10, col_start: 38, col_end: 43 },
        Platform { row: 10, col_start: 65, col_end: 70 },
        Platform { row: 10, col_start: 85, col_end: 90 },
        Platform { row: 14, col_start: 25, col_end: 30 },
        Platform { row: 14, col_start: 55, col_end: 60 },
        Platform { row: 16, col_start: 65, col_end: 70 },
        Platform { row: 18, col_start: 12, col_end: 17 },
        Platform { row: 18, col_start: 42, col_end: 47 },
        Platform { row: 18, col_start: 72, col_end: 77 },
        Platform { row: 20, col_start: 20, col_end: 25 },
        Platform { row: 22, col_start: 30, col_end: 35 },
        Platform { row: 22, col_start: 60, col_end: 65 },
        Platform { row: 26, col_start: 20, col_end: 25 },
        Platform { row: 26, col_start: 50, col_end: 55 },
        Platform { row: 28, col_start: 32, col_end: 37 },
        Platform { row: 28, col_start: 60, col_end: 65 },
        Platform { row: 30, col_start: 40, col_end: 45 },
        Platform { row: 30, col_start: 70, col_end: 75 },
    ];
    assert(full@ == seq![0usize, 1, 2]);
    assert(walls@ == Seq::<usize>::empty());
    build_layout(96, 44, full.as_slice(), walls.as_slice(), platforms.as_slice())
}

} // verus!
