use vstd::prelude::*;

use crate::ldtk::text::{contains, str_contains};

verus! {

/// Which tile a grid cell holds; decides atlas index, collision and behaviour.
#[derive(Debug, Clone, Copy, PartialEq, Eq, Structural)]
pub enum TileType {
    Empty,
    /// Full collision.
    Solid,
    /// One-way platform (solid on top only).
    Platform,
}

/// The atlas index chosen for a tile from its four cardinal neighbours.
pub open spec fn spec_autotile_index(up: bool, right: bool, down: bool, left: bool) -> usize {
    if !up {
        // Exposed top: grass surface tiles.
        if right && left {
            6
        } else if right {
            5
        } else if left {
            7
        } else {
            4
        }
    } else {
        // Buried: dirt fill tiles.
        if right && !left {
            23
        } else if left && !right {
            25
        } else {
            24
        }
    }
}

/// Given which of the 4 cardinal neighbours are solid, return the atlas tile index.
/// Bit mask view: bit 0 = up, bit 1 = right, bit 2 = down, bit 3 = left.
///
/// Kenney Pixel Platformer tilemap_packed.png layout (20 cols x 9 rows, 18px tiles):
/// row 0 holds the grass tiles 4 (standalone), 5 (left edge), 6 (middle),
/// 7 (right edge); row 1 holds the dirt tiles 23 (left edge), 24 (fill),
/// 25 (right edge).
pub fn autotile_index(up: bool, right: bool, down: bool, left: bool) -> (idx: usize)
    ensures
        idx == spec_autotile_index(up, right, down, left),
        idx == 4 || idx == 5 || idx == 6 || idx == 7 || idx == 23 || idx == 24 || idx == 25,
{
    match (up, right, down, left) {
        // Surface tiles: no tile above (exposed top)
        (false, false, false, false) => 4,
        (false, false, true, false) => 4,
        (false, true, true, false) => 5,
        (false, true, true, true) => 6,
        (false, false, true, true) => 7,
        (false, true, false, false) => 5,
        (false, false, false, true) => 7,
        (false, true, false, true) => 6,
        // Fill tiles: tile above (buried)
        (true, false, false, false) => 24,
        (true, false, true, false) => 24,
        (true, true, true, false) => 23,
        (true, true, true, true) => 24,
        (true, false, true, true) => 25,
        (true, true, false, false) => 23,
        (true, true, false, true) => 24,
        (true, false, false, true) => 25,
    }
}

/// The atlas rows: an exposed tile (nothing above) takes a grass tile from
/// row 0 (indices 0-19), a buried one a dirt tile from row 1 (20-39); the
/// tile below never changes the choice.
pub proof fn lemma_autotile_rows(up: bool, right: bool, down: bool, left: bool)
    ensures
        !up ==> spec_autotile_index(up, right, down, left) < 20,
        up ==> 20 <= spec_autotile_index(up, right, down, left) < 40,
        spec_autotile_index(up, right, down, left) == spec_autotile_index(up, right, !down, left),
{
}

/// The tile chosen for each of the sixteen neighbourhoods (up, right, down,
/// left): grass top standalone 4, left edge 5, middle 6, right edge 7; dirt
/// left edge 23, fill 24, right edge 25.
pub proof fn lemma_autotile_table()
    ensures
        spec_autotile_index(false, false, false, false) == 4,
        spec_autotile_index(false, false, true, false) == 4,
        spec_autotile_index(false, true, true, false) == 5,
        spec_autotile_index(false, true, true, true) == 6,
        spec_autotile_index(false, false, true, true) == 7,
        spec_autotile_index(false, true, false, false) == 5,
        spec_autotile_index(false, false, false, true) == 7,
        spec_autotile_index(false, true, false, true) == 6,
        spec_autotile_index(true, false, false, false) == 24,
        spec_autotile_index(true, false, true, false) == 24,
        spec_autotile_index(true, true, true, false) == 23,
        spec_autotile_index(true, true, true, true) == 24,
        spec_autotile_index(true, false, true, true) == 25,
        spec_autotile_index(true, true, false, false) == 23,
        spec_autotile_index(true, true, false, true) == 24,
        spec_autotile_index(true, false, false, true) == 25,
{
}

/// Whether cell (`col`, `row`) holds a solid or platform tile; cells outside
/// the `num_rows` x `num_cols` grid count as empty.
pub fn neighbor_solid(grid: &[Vec<TileType>], num_rows: usize, num_cols: usize, col: i32, row: i32) -> (solid:
    bool)
    requires
        num_rows <= grid@.len(),
        forall|r: int| 0 <= r < num_rows ==> num_cols <= (#[trigger] grid@[r])@.len(),
    ensures
        solid == (0 <= col < num_cols && 0 <= row < num_rows && grid@[row as int]@[col as int]
            != TileType::Empty),
{
    if col < 0 || row < 0 {
        return false;
    }
    let col = col as usize;
    let row = row as usize;
    if row >= num_rows || col >= num_cols {
        return false;
    }
    grid[row][col] != TileType::Empty
}

/// `row[start..=end]` holds only `target` tiles.
pub open spec fn uniform(row: Seq<TileType>, start: int, end: int, target: TileType) -> bool {
    forall|c: int| start <= c <= end ==> row[c] == target
}

/// `(start, end)` is a maximal run of `target` in `row`: all of it is
/// `target`, and it cannot be extended on either side.
pub open spec fn maximal_run(row: Seq<TileType>, run: (usize, usize), target: TileType) -> bool {
    &&& run.0 <= run.1 < row.len()
    &&& uniform(row, run.0 as int, run.1 as int, target)
    &&& run.0 == 0 || row[run.0 - 1] != target
    &&& run.1 + 1 == row.len() || row[run.1 + 1] != target
}

/// `runs` lists, from left to right, exactly the maximal runs of `target` in
/// `row`: each is maximal, they are in order, and every `target` cell lies in
/// one of them.
pub open spec fn runs_of(row: Seq<TileType>, target: TileType, runs: Seq<(usize, usize)>) -> bool {
    &&& forall|i: int| 0 <= i < runs.len() ==> maximal_run(row, #[trigger] runs[i], target)
    &&& forall|i: int, j: int| 0 <= i < j < runs.len() ==> (#[trigger] runs[i]).1 < (#[trigger] runs[j]).0
    &&& forall|c: int|
        0 <= c < row.len() && row[c] == target ==> exists|i: int|
            0 <= i < runs.len() && (#[trigger] runs[i]).0 <= c <= runs[i].1
}

/// The contiguous horizontal runs of `target` tiles in a row, as inclusive
/// column ranges from left to right; each becomes one collider, so the
/// physics never meets the seams between tiles of a run.
pub fn merged_runs(row: &[TileType], target: TileType) -> (runs: Vec<(usize, usize)>)
    requires
        row@.len() < usize::MAX,
    ensures
        runs_of(row@, target, runs@),
{
    let n = row.len();
    let mut runs: Vec<(usize, usize)> = Vec::new();
    let mut run_start: Option<usize> = None;
    let mut c: usize = 0;
    while c <= n
        invariant
            n == row@.len(),
            n < usize::MAX,
            c <= n + 1,
            forall|i: int| 0 <= i < runs@.len() ==> maximal_run(row@, #[trigger] runs@[i], target),
            forall|i: int, j: int|
                0 <= i < j < runs@.len() ==> (#[trigger] runs@[i]).1 < (#[trigger] runs@[j]).0,
            forall|i: int| 0 <= i < runs@.len() ==> (#[trigger] runs@[i]).1 + 1 < c,
            match run_start {
                Some(s) => s < c && c <= n && uniform(row@, s as int, c - 1, target) && (s == 0
                    || row@[s - 1] != target) && forall|i: int|
                    0 <= i < runs@.len() ==> (#[trigger] runs@[i]).1 + 1 < s,
                None => c == 0 || c - 1 >= n || row@[c - 1] != target,
            },
            forall|k: int|
                0 <= k < c && k < n && row@[k] == target && (run_start is None || k
                    < run_start.unwrap()) ==> exists|i: int|
                    0 <= i < runs@.len() && (#[trigger] runs@[i]).0 <= k <= runs@[i].1,
        decreases n + 1 - c,
    {
        let continues = c < n && row[c] == target;
        match run_start {
            None => {
                if continues {
                    run_start = Some(c);
                }
            },
            Some(s) => {
                if !continues {
                    let ghost old_runs = runs@;
                    runs.push((s, c - 1));
                    proof {
                        assert(runs@[old_runs.len() as int] == (s, (c - 1) as usize));
                        assert forall|k: int|
                            0 <= k < c + 1 && k < n && row@[k] == target && k < c + 1 implies exists|
                            i: int,
                        |
                            0 <= i < runs@.len() && (#[trigger] runs@[i]).0 <= k <= runs@[i].1 by {
                            if k < s {
                                let i = choose|i: int|
                                    0 <= i < old_runs.len() && (#[trigger] old_runs[i]).0 <= k
                                        <= old_runs[i].1;
                                assert(runs@[i] == old_runs[i]);
                            } else if k == c {
                                assert(!continues);
                            } else {
                                assert(runs@[old_runs.len() as int].0 <= k);
                            }
                        }
                    }
                    run_start = None;
                }
            },
        }
        c = c + 1;
    }
    runs
}

/// The runs of a row partition its `target` cells: every cell of a run is a
/// `target` cell, and every `target` cell lies in exactly one run.
pub proof fn lemma_runs_partition(
    row: Seq<TileType>,
    target: TileType,
    runs: Seq<(usize, usize)>,
    c: int,
)
    requires
        runs_of(row, target, runs),
        0 <= c < row.len(),
    ensures
        row[c] == target <==> exists|i: int| 0 <= i < runs.len() && (#[trigger] runs[i]).0 <= c <= runs[i].1,
        forall|i: int, j: int|
            0 <= i < runs.len() && 0 <= j < runs.len() && (#[trigger] runs[i]).0 <= c <= runs[i].1
                && (#[trigger] runs[j]).0 <= c <= runs[j].1 ==> i == j,
{
    if exists|i: int| 0 <= i < runs.len() && (#[trigger] runs[i]).0 <= c <= runs[i].1 {
        let i = choose|i: int| 0 <= i < runs.len() && (#[trigger] runs[i]).0 <= c <= runs[i].1;
        assert(maximal_run(row, runs[i], target));
    }
    assert forall|i: int, j: int|
        0 <= i < runs.len() && 0 <= j < runs.len() && (#[trigger] runs[i]).0 <= c <= runs[i].1
            && (#[trigger] runs[j]).0 <= c <= runs[j].1 implies i == j by {
        if i < j {
            assert(runs[i].1 < runs[j].0);
        } else if j < i {
            assert(runs[j].1 < runs[i].0);
        }
    }
}

// ---------------------------------------------------------------------------
// Tile models
// ---------------------------------------------------------------------------

/// Centre-anchored cube models (about 1 x 1 x 1): scaled uniformly to the
/// tile width, with no vertical offset.
#[derive(Debug, Clone, Copy, PartialEq, Eq, Structural)]
pub enum CubeModel {
    CementPlatform,
    GrassBlock,
    Redbricks,
}

/// Bottom-anchored Kenney models, each with its own native size; a tile is
/// scaled so the model fills it exactly.
#[derive(Debug, Clone, Copy, PartialEq, Eq, Structural)]
pub enum BlockModel {
    /// block-grass-low (the only one with a shallow 3-unit depth).
    GrassLow,
    /// block-grass-large.
    GrassLarge,
    /// block-snow-large.
    SnowLarge,
    /// block-moving-large.
    MovingLarge,
    /// platform.
    Platform,
    /// Nature Kit cliff_blockCave (cave sublevels).
    CaveBlock,
    /// Graveyard Kit stone-wall (sewer sublevels).
    StoneWall,
    /// Graveyard Kit brick-wall (sewer sublevels).
    BrickWall,
    /// brick.
    Brick,
}

/// The cube model a model path names: the first of "cement-platform",
/// "grass-block", "redbricks" that it contains.
pub open spec fn cube_model_of(path: Seq<char>) -> Option<CubeModel> {
    if contains(path, "cement-platform"@) {
        Some(CubeModel::CementPlatform)
    } else if contains(path, "grass-block"@) {
        Some(CubeModel::GrassBlock)
    } else if contains(path, "redbricks"@) {
        Some(CubeModel::Redbricks)
    } else {
        None
    }
}

/// The bottom-anchored model a model path names, by the first name it
/// contains in this order; cube models and unknown paths get none (the
/// caller falls back to a plain tile-sized scale).
pub open spec fn block_model_of(path: Seq<char>) -> Option<BlockModel> {
    if contains(path, "block-grass-low"@) {
        Some(BlockModel::GrassLow)
    } else if contains(path, "block-grass"@) {
        Some(BlockModel::GrassLarge)
    } else if contains(path, "block-snow"@) {
        Some(BlockModel::SnowLarge)
    } else if contains(path, "block-moving"@) {
        Some(BlockModel::MovingLarge)
    } else if contains(path, "cement-platform"@) || contains(path, "grass-block"@) || contains(
        path,
        "redbricks"@,
    ) {
        None
    } else if contains(path, "platform"@) {
        Some(BlockModel::Platform)
    } else if contains(path, "cliff_blockCave"@) {
        Some(BlockModel::CaveBlock)
    } else if contains(path, "stone-wall"@) {
        Some(BlockModel::StoneWall)
    } else if contains(path, "brick-wall"@) {
        Some(BlockModel::BrickWall)
    } else if contains(path, "brick"@) {
        Some(BlockModel::Brick)
    } else {
        None
    }
}

/// Which centre-anchored cube model a tile's model path names, if any; such
/// models get a uniform scale instead of the per-model fit.
pub fn cube_model(path: &str) -> (m: Option<CubeModel>)
    ensures
        m == cube_model_of(path@),
{
    if str_contains(path, "cement-platform") {
        Some(CubeModel::CementPlatform)
    } else if str_contains(path, "grass-block") {
        Some(CubeModel::GrassBlock)
    } else if str_contains(path, "redbricks") {
        Some(CubeModel::Redbricks)
    } else {
        None
    }
}

/// Which bottom-anchored model a tile's model path names, deciding the
/// native size its scale is computed from; `None` for cube models and
/// unknown paths, which fall back to a tile-sized scale.
pub fn block_model(path: &str) -> (m: Option<BlockModel>)
    ensures
        m == block_model_of(path@),
{
    if str_contains(path, "block-grass-low") {
        Some(BlockModel::GrassLow)
    } else if str_contains(path, "block-grass") {
        Some(BlockModel::GrassLarge)
    } else if str_contains(path, "block-snow") {
        Some(BlockModel::SnowLarge)
    } else if str_contains(path, "block-moving") {
        Some(BlockModel::MovingLarge)
    } else if str_contains(path, "cement-platform") || str_contains(path, "grass-block")
        || str_contains(path, "redbricks") {
        None
    } else if str_contains(path, "platform") {
        Some(BlockModel::Platform)
    } else if str_contains(path, "cliff_blockCave") {
        Some(BlockModel::CaveBlock)
    } else if str_contains(path, "stone-wall") {
        Some(BlockModel::StoneWall)
    } else if str_contains(path, "brick-wall") {
        Some(BlockModel::BrickWall)
    } else if str_contains(path, "brick") {
        Some(BlockModel::Brick)
    } else {
        None
    }
}

} // verus!
