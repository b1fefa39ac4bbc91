//! The playing field: a grid of sixteen rows of ten cells, row 0 topmost.
//! A cell holds `0` when empty and the color `1..=7` of a locked block
//! otherwise.

use vstd::prelude::*;

verus! {

/// Number of columns of the playing field.
pub const FIELD_WIDTH: usize = 10;

/// Number of rows of the playing field.
pub const FIELD_HEIGHT: usize = 16;

/// The largest value a cell can hold: the color of the seventh kind.
pub const MAX_COLOR: u8 = 7;

/// The mathematical view of a stored field: its rows, top to bottom.
pub open spec fn grid_of(map: &Vec<Vec<u8>>) -> Seq<Seq<u8>> {
    Seq::new(map@.len(), |r: int| map@[r]@)
}

/// A row as wide as the field whose cells hold nothing but colors or `0`.
pub open spec fn row_wf(row: Seq<u8>) -> bool {
    &&& row.len() == FIELD_WIDTH
    &&& forall|c: int| 0 <= c < row.len() ==> #[trigger] row[c] <= MAX_COLOR
}

/// A grid of full height made of well-formed rows.
pub open spec fn grid_wf(grid: Seq<Seq<u8>>) -> bool {
    &&& grid.len() == FIELD_HEIGHT
    &&& forall|r: int| 0 <= r < grid.len() ==> row_wf(#[trigger] grid[r])
}

/// The cell at (`row`, `col`) exists in the grid and is empty.
pub open spec fn cell_free(grid: Seq<Seq<u8>>, row: int, col: int) -> bool {
    &&& 0 <= row < grid.len()
    &&& 0 <= col < grid[row].len()
    &&& grid[row][col] == 0
}

/// Every cell of the row is occupied.
pub open spec fn row_complete(row: Seq<u8>) -> bool {
    forall|c: int| 0 <= c < row.len() ==> #[trigger] row[c] != 0
}

/// A row of the field's width with no block in it.
pub open spec fn empty_row() -> Seq<u8> {
    Seq::new(FIELD_WIDTH as nat, |c: int| 0u8)
}

/// A grid of `height` empty rows.
pub open spec fn empty_grid(height: nat) -> Seq<Seq<u8>> {
    Seq::new(height, |r: int| empty_row())
}

/// The rows that a line clear leaves in place: those with at least one empty
/// cell, in their order.
pub open spec fn surviving_rows(grid: Seq<Seq<u8>>) -> Seq<Seq<u8>> {
    grid.filter(|row: Seq<u8>| !row_complete(row))
}

/// How many rows of the grid are complete.
pub open spec fn complete_count(grid: Seq<Seq<u8>>) -> nat {
    (grid.len() - surviving_rows(grid).len()) as nat
}

/// The grid after a line clear: the complete rows are gone, the others have
/// moved down to close the gaps, and as many empty rows as were removed
/// stand on top.
pub open spec fn cleared(grid: Seq<Seq<u8>>) -> Seq<Seq<u8>> {
    empty_grid(complete_count(grid)) + surviving_rows(grid)
}

/// Appending one row to a grid appends it to the surviving rows unless it is
/// complete.
pub proof fn lemma_surviving_push(grid: Seq<Seq<u8>>, row: Seq<u8>)
    ensures
        surviving_rows(grid.push(row)) == if row_complete(row) {
            surviving_rows(grid)
        } else {
            surviving_rows(grid).push(row)
        },
        surviving_rows(grid).len() <= grid.len(),
        complete_count(grid.push(row)) == complete_count(grid) + if row_complete(row) {
            1nat
        } else {
            0nat
        },
{
    reveal(Seq::filter);
    assert(grid.push(row).drop_last() =~= grid);
    grid.lemma_filter_len(|row: Seq<u8>| !row_complete(row));
}

/// The complete rows among the first `k` rows are no more than those of the
/// whole grid.
pub proof fn lemma_complete_count_prefix(grid: Seq<Seq<u8>>, k: int)
    requires
        0 <= k <= grid.len(),
    ensures
        complete_count(grid.take(k)) <= complete_count(grid),
        complete_count(grid.take(k)) <= k,
    decreases grid.len() - k,
{
    if k < grid.len() {
        lemma_complete_count_prefix(grid, k + 1);
        assert(grid.take(k + 1) =~= grid.take(k).push(grid[k]));
        lemma_surviving_push(grid.take(k), grid[k]);
    } else {
        assert(grid.take(k) =~= grid);
    }
    grid.take(k).lemma_filter_len(|row: Seq<u8>| !row_complete(row));
}

/// Every surviving row is a row of the grid with an empty cell in it: where
/// the rows of the grid are well formed, so are the surviving ones.
pub proof fn lemma_surviving_rows(grid: Seq<Seq<u8>>)
    ensures
        surviving_rows(grid).len() <= grid.len(),
        forall|r: int|
            0 <= r < surviving_rows(grid).len() ==> !row_complete(#[trigger] surviving_rows(grid)[r]),
        (forall|r: int| 0 <= r < grid.len() ==> row_wf(#[trigger] grid[r])) ==> (forall|r: int|
            0 <= r < surviving_rows(grid).len() ==> row_wf(#[trigger] surviving_rows(grid)[r])),
    decreases grid.len(),
{
    if grid.len() == 0 {
        reveal(Seq::filter);
    } else {
        let front = grid.drop_last();
        let row = grid.last();
        lemma_surviving_rows(front);
        assert(front.push(row) =~= grid);
        lemma_surviving_push(front, row);
        if forall|r: int| 0 <= r < grid.len() ==> row_wf(#[trigger] grid[r]) {
            assert forall|r: int| 0 <= r < front.len() implies row_wf(#[trigger] front[r]) by {
                assert(front[r] == grid[r]);
            }
            assert(row_wf(grid[grid.len() - 1]));
        }
    }
}

/// A line clear keeps the height of the grid, and keeps a well-formed grid
/// well formed.
pub proof fn lemma_cleared_shape(grid: Seq<Seq<u8>>)
    ensures
        cleared(grid).len() == grid.len(),
        grid_wf(grid) ==> grid_wf(cleared(grid)),
        complete_count(grid) <= grid.len(),
{
    lemma_surviving_rows(grid);
    let rows = complete_count(grid);
    if grid_wf(grid) {
        assert forall|r: int| 0 <= r < cleared(grid).len() implies row_wf(
            #[trigger] cleared(grid)[r],
        ) by {
            if r < rows {
                assert(cleared(grid)[r] == empty_grid(rows)[r]);
            } else {
                assert(cleared(grid)[r] == surviving_rows(grid)[r - rows]);
            }
        }
    }
}

/// In a grid whose rows are all complete no row survives a clear.
pub proof fn lemma_all_complete(grid: Seq<Seq<u8>>)
    requires
        forall|r: int| 0 <= r < grid.len() ==> row_complete(#[trigger] grid[r]),
    ensures
        complete_count(grid) == grid.len(),
        cleared(grid) == empty_grid(grid.len()),
    decreases grid.len(),
{
    if grid.len() == 0 {
        reveal(Seq::filter);
    } else {
        let front = grid.drop_last();
        assert forall|r: int| 0 <= r < front.len() implies row_complete(#[trigger] front[r]) by {
            assert(front[r] == grid[r]);
        }
        lemma_all_complete(front);
        assert(front.push(grid.last()) =~= grid);
        lemma_surviving_push(front, grid.last());
        assert(row_complete(grid[grid.len() - 1]));
    }
    assert(cleared(grid) =~= empty_grid(grid.len()));
}

/// A grid without a complete row is left as it is by a clear.
pub proof fn lemma_none_complete(grid: Seq<Seq<u8>>)
    requires
        forall|r: int| 0 <= r < grid.len() ==> !row_complete(#[trigger] grid[r]),
    ensures
        complete_count(grid) == 0,
        cleared(grid) == grid,
    decreases grid.len(),
{
    if grid.len() == 0 {
        reveal(Seq::filter);
    } else {
        let front = grid.drop_last();
        assert(front.push(grid.last()) =~= grid);
        assert forall|r: int| 0 <= r < front.len() implies !row_complete(#[trigger] front[r]) by {
            assert(front[r] == grid[r]);
        }
        lemma_none_complete(front);
        lemma_surviving_push(front, grid.last());
        assert(!row_complete(grid[grid.len() - 1]));
        assert(empty_grid(0) + surviving_rows(front) =~= surviving_rows(front));
    }
    assert(empty_grid(0) + surviving_rows(grid) =~= surviving_rows(grid));
}

/// Builds a row with no block in it.
pub fn new_empty_row() -> (row: Vec<u8>)
    ensures
        row@ == empty_row(),
{
    let mut row: Vec<u8> = Vec::new();
    while row.len() < FIELD_WIDTH
        invariant
            row.len() <= FIELD_WIDTH,
            forall|c: int| 0 <= c < row.len() ==> row[c] == 0,
        decreases FIELD_WIDTH - row.len(),
    {
        row.push(0);
    }
    assert(row@ =~= empty_row());
    row
}

/// Tells whether every cell of `row` is occupied.
pub fn is_row_complete(row: &Vec<u8>) -> (complete: bool)
    ensures
        complete == row_complete(row@),
{
    let mut c: usize = 0;
    while c < row.len()
        invariant
            c <= row.len(),
            forall|k: int| 0 <= k < c ==> row[k] != 0,
        decreases row.len() - c,
    {
        if row[c] == 0 {
            return false;
        }
        c += 1;
    }
    true
}

/// Deletes the row at `index`; the rows that were above it move down by one
/// and the field is one row shorter.
pub fn remove_row(map: &mut Vec<Vec<u8>>, index: usize)
    requires
        index < old(map).len(),
    ensures
        grid_of(final(map)) == grid_of(old(map)).remove(index as int),
{
    map.remove(index);
    assert(grid_of(map) =~= grid_of(old(map)).remove(index as int));
}

/// Inserts a row with no block in it at the top of the field.
pub fn prepend_empty_row(map: &mut Vec<Vec<u8>>)
    ensures
        grid_of(final(map)) == seq![empty_row()] + grid_of(old(map)),
{
    let row = new_empty_row();
    map.insert(0, row);
    assert(grid_of(map) =~= seq![empty_row()] + grid_of(old(map)));
}

/// Stores `value` in the cell at (`row`, `col`).
pub fn write_cell(map: &mut Vec<Vec<u8>>, row: usize, col: usize, value: u8)
    requires
        row < old(map).len(),
        col < old(map)[row as int].len(),
    ensures
        grid_of(final(map)) == grid_of(old(map)).update(
            row as int,
            grid_of(old(map))[row as int].update(col as int, value),
        ),
{
    map[row][col] = value;
    assert(grid_of(map) =~= grid_of(old(map)).update(
        row as int,
        grid_of(old(map))[row as int].update(col as int, value),
    ));
}

/// Finds the cell of the field that lies `row` rows below `y` and `col`
/// columns right of `x`, if the field has such a cell.
pub fn target_cell(field: &Vec<Vec<u8>>, x: isize, y: usize, row: usize, col: usize) -> (cell:
    Option<(usize, usize)>)
    requires
        row < 4,
        col < 4,
    ensures
        cell is Some <==> 0 <= y + row < field.len() && 0 <= x + col < field[y + row].len(),
        cell matches Some((r, c)) ==> r == y + row && c == x + col,
{
    if y >= field.len() || row >= field.len() - y {
        return None;
    }
    let width = field[y + row].len();
    if x < 0 {
        if x < -3 || x + (col as isize) < 0 {
            return None;
        }
        let c: usize = (x + (col as isize)) as usize;
        if c < width {
            Some((y + row, c))
        } else {
            None
        }
    } else {
        let ux: usize = x as usize;
        if ux >= width || col >= width - ux {
            return None;
        }
        Some((y + row, ux + col))
    }
}

/// Tells whether the stored field has its fixed shape and holds nothing but
/// colors and empty cells.
pub fn is_well_formed(map: &Vec<Vec<u8>>) -> (ok: bool)
    ensures
        ok == grid_wf(grid_of(map)),
{
    if map.len() != FIELD_HEIGHT {
        return false;
    }
    let mut r: usize = 0;
    while r < map.len()
        invariant
            r <= map.len() == FIELD_HEIGHT,
            forall|k: int| 0 <= k < r ==> row_wf(#[trigger] grid_of(map)[k]),
        decreases map.len() - r,
    {
        let row = &map[r];
        if row.len() != FIELD_WIDTH {
            assert(!row_wf(grid_of(map)[r as int]));
            return false;
        }
        let mut c: usize = 0;
        while c < row.len()
            invariant
                r < map.len() == FIELD_HEIGHT,
                row@ == grid_of(map)[r as int],
                c <= row.len() == FIELD_WIDTH,
                forall|k: int| 0 <= k < c ==> #[trigger] row[k] <= MAX_COLOR,
            decreases row.len() - c,
        {
            if row[c] > MAX_COLOR {
                assert(!row_wf(grid_of(map)[r as int])) by {
                    assert(grid_of(map)[r as int][c as int] > MAX_COLOR);
                }
                return false;
            }
            c += 1;
        }
        assert(row_wf(grid_of(map)[r as int]));
        r += 1;
    }
    true
}

/// Builds a field of full height in which every cell is empty.
pub fn new_field() -> (map: Vec<Vec<u8>>)
    ensures
        grid_of(&map) == empty_grid(FIELD_HEIGHT as nat),
        grid_wf(grid_of(&map)),
{
    let mut map: Vec<Vec<u8>> = Vec::new();
    while map.len() < FIELD_HEIGHT
        invariant
            map.len() <= FIELD_HEIGHT,
            forall|r: int| 0 <= r < map.len() ==> map[r]@ == empty_row(),
        decreases FIELD_HEIGHT - map.len(),
    {
        let row = new_empty_row();
        map.push(row);
    }
    assert(grid_of(&map) =~= empty_grid(FIELD_HEIGHT as nat));
    map
}

} // verus!
