//! The rules of a session, stated over its mathematical state: the level
//! tables, the points a clear earns, how counted lines raise the level, and
//! what locking a piece, clearing lines and a step of gravity do.

use vstd::prelude::*;
use crate::field::cleared;
use crate::field::complete_count;
use crate::field::empty_grid;
use crate::field::lemma_all_complete;
use crate::field::lemma_cleared_shape;
use crate::field::row_complete;
use crate::field::grid_wf;
use crate::field::row_wf;
use crate::field::FIELD_HEIGHT;
use crate::tetromino::fits_at;
use crate::tetromino::lemma_mask_cells;
use crate::tetromino::mask_cell;
use crate::tetromino::Tetromino;

verus! {

/// Fall interval in milliseconds, one slot per level.
pub const LEVEL_TIMES: [u32; 10] = [1000, 850, 700, 600, 500, 400, 300, 250, 221, 190];

/// Line count above which a level is left for the next, one slot per level.
pub const LEVEL_LINES: [u32; 10] = [20, 40, 60, 80, 100, 120, 140, 160, 180, 200];

/// Number of slots in the level tables.
pub const LEVEL_SLOTS: u32 = 10;

/// Points added on top of the per-line awards when a clear empties the field.
pub const FULL_CLEAR_BONUS: u32 = 1000;

/// The line count that `level` lasts up to: the slot `level - 1` of
/// `LEVEL_LINES`. Levels `1..=10` have a slot.
pub open spec fn line_threshold(level: nat) -> nat {
    LEVEL_LINES[level - 1] as nat
}

/// The fall interval in force at `level`: the slot `level` of `LEVEL_TIMES`,
/// which is the slot of the level after it. Levels `0..=9` have such a slot.
pub open spec fn fall_interval(level: nat) -> nat {
    LEVEL_TIMES[level as int] as nat
}

/// The points that a clear of `rows` rows earns at `level`: the level's value
/// for each row, and the bonus when all sixteen rows went at once.
pub open spec fn points_awarded(level: nat, rows: nat) -> nat {
    if rows == FIELD_HEIGHT {
        rows * level + FULL_CLEAR_BONUS as nat
    } else {
        rows * level
    }
}

/// The level reached from `level` after `rows` lines were counted one by one
/// on top of `lines`: each line raises the level by one where the count,
/// that line included, exceeds the threshold of the level then in force.
pub open spec fn level_after(level: nat, lines: nat, rows: nat) -> nat
    decreases rows,
{
    if rows == 0 {
        level
    } else {
        let reached = level_after(level, lines, (rows - 1) as nat);
        if lines + rows > line_threshold(reached) {
            reached + 1
        } else {
            reached
        }
    }
}

/// A clear of `rows` rows can be booked: the score and the line count stay
/// within `u32`, and each line is counted at a level that has a slot in the
/// table of thresholds.
pub open spec fn clear_in_range(level: nat, score: nat, lines: nat, rows: nat) -> bool {
    &&& score + points_awarded(level, rows) <= u32::MAX
    &&& lines + rows <= u32::MAX
    &&& forall|k: nat| k < rows ==> 1 <= #[trigger] level_after(level, lines, k) <= LEVEL_SLOTS
}

/// The piece covers the cell at (`row`, `col`) of the field with an occupied
/// cell of its mask.
pub open spec fn covers(piece: Tetromino, row: int, col: int) -> bool {
    &&& 0 <= row - piece.y < 4
    &&& 0 <= col - piece.x < 4
    &&& mask_cell(piece.kind, piece.current_state as int, row - piece.y, col - piece.x) != 0
}

/// The grid with the piece written into it: every cell of the grid that the
/// piece covers takes the value of the mask cell above it, whatever it held;
/// the others keep theirs.
pub open spec fn stamped(grid: Seq<Seq<u8>>, piece: Tetromino) -> Seq<Seq<u8>> {
    Seq::new(
        grid.len(),
        |r: int|
            Seq::new(
                grid[r].len(),
                |c: int|
                    if covers(piece, r, c) {
                        mask_cell(
                            piece.kind,
                            piece.current_state as int,
                            r - piece.y,
                            c - piece.x,
                        )
                    } else {
                        grid[r][c]
                    },
            ),
    )
}

/// The mathematical state of a session.
pub struct Session {
    /// The rows of the field, top to bottom.
    pub grid: Seq<Seq<u8>>,
    /// The current level.
    pub level: nat,
    /// The points earned so far.
    pub score: nat,
    /// The lines cleared so far.
    pub lines: nat,
    /// The falling piece, if there is one.
    pub piece: Option<Tetromino>,
}

impl Session {
    /// The field has its fixed shape, the level is at least one, and the
    /// active piece shows one of its kind's states.
    pub open spec fn wf(self) -> bool {
        &&& grid_wf(self.grid)
        &&& self.level >= 1
        &&& self.piece matches Some(piece) ==> piece.wf()
    }

    /// The active piece, if any, covers only cells that exist and are empty.
    pub open spec fn piece_placed(self) -> bool {
        self.piece matches Some(piece) ==> piece.placed(self.grid)
    }

    /// The session after one more line was counted.
    pub open spec fn line_counted(self) -> Session {
        Session {
            lines: self.lines + 1,
            level: if self.lines + 1 > line_threshold(self.level) {
                self.level + 1
            } else {
                self.level
            },
            ..self
        }
    }

    /// The session after the active piece was written into the field and
    /// retired. Without an active piece the field stays as it is.
    pub open spec fn locked(self) -> Session {
        Session {
            grid: match self.piece {
                Some(piece) => stamped(self.grid, piece),
                None => self.grid,
            },
            piece: None,
            ..self
        }
    }

    /// The session after its complete rows were cleared and booked.
    pub open spec fn swept(self) -> Session {
        let rows = complete_count(self.grid);
        Session {
            grid: cleared(self.grid),
            level: level_after(self.level, self.lines, rows),
            score: self.score + points_awarded(self.level, rows),
            lines: self.lines + rows,
            piece: self.piece,
        }
    }

    /// The complete rows of the field can be booked.
    pub open spec fn can_sweep(self) -> bool {
        clear_in_range(self.level, self.score, self.lines, complete_count(self.grid))
    }

    /// The session after the active piece was locked and the lines that this
    /// completed were cleared.
    pub open spec fn settled(self) -> Session {
        self.locked().swept()
    }

    /// The rows that locking the active piece completes can be booked.
    pub open spec fn can_settle(self) -> bool {
        self.locked().can_sweep()
    }

    /// The active piece can move one row down.
    pub open spec fn can_descend(self) -> bool {
        self.piece matches Some(piece) && fits_at(
            self.grid,
            piece.kind,
            piece.current_state as int,
            piece.x as int,
            piece.y + 1,
        )
    }

    /// The session after one step of gravity: the active piece is one row
    /// lower where it fits there, and is locked where it does not. Without
    /// an active piece nothing happens.
    pub open spec fn fallen(self) -> Session {
        match self.piece {
            None => self,
            Some(piece) => if self.can_descend() {
                Session { piece: Some(piece.moved_to(piece.x, (piece.y + 1) as usize)), ..self }
            } else {
                self.settled()
            },
        }
    }

    /// A step of gravity stays within the score's, line count's and level
    /// table's range.
    pub open spec fn can_fall(self) -> bool {
        self.piece is Some && !self.can_descend() ==> self.can_settle()
    }

    /// The session after `piece` asked to enter the field: it becomes the
    /// active piece where none is active and it fits; otherwise nothing
    /// changes.
    pub open spec fn entered(self, piece: Tetromino) -> Session {
        if self.admits(piece) {
            Session { piece: Some(piece), ..self }
        } else {
            self
        }
    }

    /// No piece is active and `piece` fits the field where it stands.
    pub open spec fn admits(self, piece: Tetromino) -> bool {
        self.piece is None && piece.placed(self.grid)
    }
}

/// Writing a piece into a well-formed grid leaves a well-formed grid.
pub proof fn lemma_stamped_wf(grid: Seq<Seq<u8>>, piece: Tetromino)
    requires
        grid_wf(grid),
        piece.wf(),
    ensures
        grid_wf(stamped(grid, piece)),
{
    let result = stamped(grid, piece);
    assert forall|r: int| 0 <= r < result.len() implies row_wf(#[trigger] result[r]) by {
        assert(row_wf(grid[r]));
        assert forall|c: int| 0 <= c < result[r].len() implies #[trigger] result[r][c] <= 7 by {
            if covers(piece, r, c) {
                lemma_mask_cells(piece.kind, piece.current_state as int, r - piece.y, c - piece.x);
            } else {
                assert(grid[r][c] <= 7);
            }
        }
    }
}

/// Counting lines never lowers the level.
pub proof fn lemma_level_at_least(level: nat, lines: nat, rows: nat)
    ensures
        level_after(level, lines, rows) >= level,
    decreases rows,
{
    if rows > 0 {
        lemma_level_at_least(level, lines, (rows - 1) as nat);
    }
}

/// Locking a piece and clearing the completed rows leaves the field at its
/// fixed height of sixteen rows, each of them ten cells wide.
pub proof fn lemma_settled_keeps_shape(session: Session)
    requires
        session.wf(),
    ensures
        session.locked().grid.len() == FIELD_HEIGHT,
        session.locked().swept().grid.len() == FIELD_HEIGHT,
        grid_wf(session.settled().grid),
{
    if let Some(piece) = session.piece {
        lemma_stamped_wf(session.grid, piece);
    }
    lemma_cleared_shape(session.locked().grid);
}

/// A clear earns, for each row, the value of the level at which it started.
/// One cleared row at level `L` earns exactly `L` points; sixteen rows
/// cleared at once earn `16 * L + 1000`; any other number of rows earns that
/// number times `L`.
pub proof fn lemma_points_awarded(level: nat, rows: nat)
    ensures
        rows == 1 ==> points_awarded(level, rows) == level,
        rows == 16 ==> points_awarded(level, rows) == 16 * level + 1000,
        rows != 16 ==> points_awarded(level, rows) == rows * level,
{
}

/// Clearing a field with exactly one complete row adds the level's value to
/// the score and one to the line count.
pub proof fn lemma_single_row_clear(session: Session)
    requires
        complete_count(session.grid) == 1,
    ensures
        session.swept().score == session.score + session.level,
        session.swept().lines == session.lines + 1,
{
}

/// Clearing a field whose sixteen rows are all complete adds sixteen times
/// the level's value and the bonus of 1000 to the score, and leaves the field
/// empty.
pub proof fn lemma_full_clear(session: Session)
    requires
        session.grid.len() == FIELD_HEIGHT,
        forall|r: int| 0 <= r < session.grid.len() ==> row_complete(#[trigger] session.grid[r]),
    ensures
        session.swept().score == session.score + 16 * session.level + 1000,
        session.swept().lines == session.lines + 16,
        session.swept().grid == empty_grid(FIELD_HEIGHT as nat),
{
    lemma_all_complete(session.grid);
}

/// Each counted line raises the level by exactly one where the line count,
/// that line included, exceeds the threshold of the level in force, and
/// leaves it alone otherwise. So a batch of lines raises the level once for
/// each threshold that it crosses, by no more than the number of lines.
pub proof fn lemma_level_steps(level: nat, lines: nat, rows: nat)
    ensures
        level_after(level, lines, rows + 1) == level_after(level, lines, rows) + if lines + rows
            + 1 > line_threshold(level_after(level, lines, rows)) {
            1nat
        } else {
            0nat
        },
        level <= level_after(level, lines, rows) <= level + rows,
        level_after(level, lines, rows) == level + crossings(level, lines, rows),
    decreases rows,
{
    if rows > 0 {
        lemma_level_steps(level, lines, (rows - 1) as nat);
    }
}

/// How many of the first `rows` lines counted on top of `lines` cross the
/// threshold of the level in force when they are counted.
pub open spec fn crossings(level: nat, lines: nat, rows: nat) -> nat
    decreases rows,
{
    if rows == 0 {
        0
    } else {
        let earlier = crossings(level, lines, (rows - 1) as nat);
        if lines + rows > line_threshold(level_after(level, lines, (rows - 1) as nat)) {
            earlier + 1
        } else {
            earlier
        }
    }
}

/// The session after a clear is the session after its lines were counted one
/// by one: the level moves as `line_counted` moves it, once per cleared row.
pub proof fn lemma_swept_counts_lines(session: Session, rows: nat)
    ensures
        counted(session, rows).lines == session.lines + rows,
        counted(session, rows).level == level_after(session.level, session.lines, rows),
    decreases rows,
{
    if rows > 0 {
        lemma_swept_counts_lines(session, (rows - 1) as nat);
    }
}

/// The session after `rows` lines were counted one after the other.
pub open spec fn counted(session: Session, rows: nat) -> Session
    decreases rows,
{
    if rows == 0 {
        session
    } else {
        counted(session, (rows - 1) as nat).line_counted()
    }
}

/// A clear of rows of the field that can be booked could be booked with
/// fewer rows too.
pub proof fn lemma_clear_in_range_fewer(level: nat, score: nat, lines: nat, rows: nat, fewer: nat)
    requires
        clear_in_range(level, score, lines, rows),
        fewer <= rows <= FIELD_HEIGHT,
    ensures
        clear_in_range(level, score, lines, fewer),
{
    assert(fewer * level <= rows * level) by (nonlinear_arith)
        requires
            fewer <= rows,
    ;
}

impl Session {
    /// Score, line count and level leave room for any clear, up to one of
    /// the whole field.
    pub open spec fn has_headroom(self) -> bool {
        clear_in_range(self.level, self.score, self.lines, FIELD_HEIGHT as nat)
    }
}

/// With room for a clear of the whole field, whatever rows are complete
/// can be booked: at once, after locking the active piece, and after a step
/// of gravity.
pub proof fn lemma_headroom(session: Session)
    requires
        session.wf(),
        session.has_headroom(),
    ensures
        session.can_sweep(),
        session.can_settle(),
        session.can_fall(),
{
    lemma_cleared_shape(session.grid);
    lemma_clear_in_range_fewer(
        session.level,
        session.score,
        session.lines,
        FIELD_HEIGHT as nat,
        complete_count(session.grid),
    );
    lemma_cleared_shape(session.locked().grid);
    lemma_clear_in_range_fewer(
        session.level,
        session.score,
        session.lines,
        FIELD_HEIGHT as nat,
        complete_count(session.locked().grid),
    );
}

} // verus!
