//! The session as it is stored and run: the field, the active piece, score,
//! line count and level, with the operations that lock a piece, clear lines,
//! book points and apply gravity.

use vstd::prelude::*;
use std::time::SystemTime;
use crate::field::cleared;
use crate::field::complete_count;
use crate::field::empty_grid;
use crate::field::grid_of;
use crate::field::grid_wf;
use crate::field::is_row_complete;
use crate::field::is_well_formed;
use crate::field::lemma_complete_count_prefix;
use crate::field::lemma_surviving_push;
use crate::field::new_field;
use crate::field::prepend_empty_row;
use crate::field::remove_row;
use crate::field::row_wf;
use crate::field::surviving_rows;
use crate::field::target_cell;
use crate::field::write_cell;
use crate::field::FIELD_HEIGHT;
use crate::generator::PieceGenerator;
use crate::session::covers;
use crate::session::fall_interval;
use crate::session::lemma_level_at_least;
use crate::session::lemma_stamped_wf;
use crate::session::level_after;
use crate::session::points_awarded;
use crate::session::stamped;
use crate::session::Session;
use crate::session::FULL_CLEAR_BONUS;
use crate::session::LEVEL_LINES;
use crate::session::LEVEL_SLOTS;
use crate::session::LEVEL_TIMES;
use crate::tetromino::lemma_fits_bounds;
use crate::tetromino::mask_cell;
use crate::tetromino::rotation_mask;
use crate::tetromino::Tetromino;

verus! {

/// The session of a falling-block game.
pub struct Game {
    /// The field: sixteen rows of ten cells, row 0 topmost.
    pub game_map: Vec<Vec<u8>>,
    /// The current level, starting at one.
    pub current_level: u32,
    /// The points earned so far.
    pub score: u32,
    /// The lines cleared so far.
    pub num_lines: u32,
    /// The falling piece, if there is one.
    pub current_piece: Option<Tetromino>,
}

impl View for Game {
    type V = Session;

    open spec fn view(&self) -> Session {
        Session {
            grid: grid_of(&self.game_map),
            level: self.current_level as nat,
            score: self.score as nat,
            lines: self.num_lines as nat,
            piece: self.current_piece,
        }
    }
}

impl Game {
    /// Starts a session: an empty field, level one, no points, no lines, no
    /// active piece.
    pub fn new() -> (game: Game)
        ensures
            game@ == (Session {
                grid: empty_grid(FIELD_HEIGHT as nat),
                level: 1,
                score: 0,
                lines: 0,
                piece: None,
            }),
            game@.wf(),
    {
        Game { game_map: new_field(), current_level: 1, score: 0, num_lines: 0, current_piece: None }
    }

    /// Adds `points` to the score.
    pub fn update_score(&mut self, points: u32)
        requires
            old(self).score + points <= u32::MAX,
        ensures
            final(self)@ == (Session { score: old(self)@.score + points as nat, ..old(self)@ }),
    {
        self.score += points;
    }

    /// Raises the level by one.
    pub fn increase_level(&mut self)
        requires
            old(self).current_level < u32::MAX,
        ensures
            final(self)@ == (Session { level: old(self)@.level + 1, ..old(self)@ }),
    {
        self.current_level += 1;
    }

    /// Counts one cleared line, and raises the level by one where the new
    /// count exceeds the threshold of the current level.
    pub fn increase_line(&mut self)
        requires
            1 <= old(self).current_level <= LEVEL_SLOTS,
            old(self).num_lines < u32::MAX,
        ensures
            final(self)@ == old(self)@.line_counted(),
    {
        self.num_lines += 1;
        if self.num_lines > LEVEL_LINES[self.current_level as usize - 1] {
            self.increase_level();
        }
    }

    /// Creates the next piece at its spawn position; the generator picks its
    /// kind and remembers it.
    pub fn create_new_tetromino(&self, generator: &mut PieceGenerator) -> (piece: Tetromino)
        ensures
            piece == Tetromino::spawned(piece.kind),
            piece.wf(),
            final(generator).last == Some(piece.kind),
    {
        let kind = generator.next_kind();
        Tetromino::new(kind)
    }

    /// Clears the complete rows: they leave the field, the rows above them
    /// move down, and the field is filled up from the top with empty rows.
    /// Each cleared row earns the level's value in points (the level before
    /// the clear), a clear of the whole field earns the bonus on top, and
    /// each cleared row is counted as a line, which may raise the level.
    pub fn check_lines(&mut self)
        requires
            old(self)@.wf(),
            old(self)@.can_sweep(),
        ensures
            final(self)@ == old(self)@.swept(),
            final(self)@.wf(),
    {
        let ghost start = self@;
        let ghost total = complete_count(start.grid);
        let ghost mut seen: int = 0;
        let mut y: usize = 0;
        let mut points_to_add: u32 = 0;
        proof {
            assert(start.grid.take(0) =~= Seq::<Seq<u8>>::empty());
            assert(surviving_rows(Seq::<Seq<u8>>::empty()) =~= Seq::<Seq<u8>>::empty()) by {
                reveal(Seq::filter);
            }
            assert(grid_of(&self.game_map).take(0) =~= Seq::<Seq<u8>>::empty());
            assert(grid_of(&self.game_map).skip(0) =~= start.grid);
            assert(start.grid.skip(0) =~= start.grid);
        }
        while y < self.game_map.len()
            invariant
                start.wf(),
                start.can_sweep(),
                total == complete_count(start.grid),
                self.current_level == start.level,
                self.score == start.score,
                self.num_lines == start.lines,
                self.current_piece == start.piece,
                0 <= y <= self.game_map.len() <= FIELD_HEIGHT,
                seen == y + (FIELD_HEIGHT - self.game_map.len()),
                0 <= seen <= FIELD_HEIGHT,
                grid_of(&self.game_map).take(y as int) == surviving_rows(start.grid.take(seen)),
                grid_of(&self.game_map).skip(y as int) == start.grid.skip(seen),
                points_to_add == (seen - y) * start.level,
                forall|r: int|
                    0 <= r < self.game_map.len() ==> row_wf(#[trigger] grid_of(&self.game_map)[r]),
            decreases FIELD_HEIGHT - seen,
        {
            let ghost before = grid_of(&self.game_map);
            proof {
                assert(before[y as int] == before.skip(y as int)[0]);
                assert(start.grid.skip(seen)[0] == start.grid[seen]);
                assert(start.grid.take(seen + 1) =~= start.grid.take(seen).push(start.grid[seen]));
                lemma_surviving_push(start.grid.take(seen), start.grid[seen]);
                lemma_complete_count_prefix(start.grid, seen + 1);
            }
            if is_row_complete(&self.game_map[y]) {
                proof {
                    let removed = seen - y;
                    assert(removed + 1 == complete_count(start.grid.take(seen + 1)));
                    assert((removed + 1) * start.level <= total * start.level) by (nonlinear_arith)
                        requires
                            removed + 1 <= total,
                            0 <= start.level,
                    ;
                    assert((removed + 1) * start.level == removed * start.level + start.level)
                        by (nonlinear_arith);
                }
                points_to_add += self.current_level;
                remove_row(&mut self.game_map, y);
                proof {
                    let after = grid_of(&self.game_map);
                    assert(after.take(y as int) =~= before.take(y as int));
                    assert(after.skip(y as int) =~= before.skip(y as int).skip(1));
                    assert(start.grid.skip(seen).skip(1) =~= start.grid.skip(seen + 1));
                    assert forall|r: int| 0 <= r < after.len() implies row_wf(
                        #[trigger] after[r],
                    ) by {
                        if r < y {
                            assert(after[r] == before[r]);
                        } else {
                            assert(after[r] == before[r + 1]);
                        }
                    }
                    seen = seen + 1;
                }
            } else {
                proof {
                    assert(before.take(y + 1) =~= before.take(y as int).push(before[y as int]));
                    assert(before.skip(y + 1) =~= before.skip(y as int).skip(1));
                    assert(start.grid.skip(seen).skip(1) =~= start.grid.skip(seen + 1));
                    seen = seen + 1;
                }
                y += 1;
            }
        }
        proof {
            assert(seen == FIELD_HEIGHT);
            assert(start.grid.take(seen) =~= start.grid);
            assert(grid_of(&self.game_map).take(y as int) =~= grid_of(&self.game_map));
            assert(total == FIELD_HEIGHT - self.game_map.len());
        }
        if self.game_map.len() == 0 {
            points_to_add += FULL_CLEAR_BONUS;
        }
        self.update_score(points_to_add);
        let ghost kept = surviving_rows(start.grid);
        proof {
            assert(empty_grid(0) + kept =~= kept);
        }
        while self.game_map.len() < FIELD_HEIGHT
            invariant
                start.wf(),
                start.can_sweep(),
                total == complete_count(start.grid),
                kept == surviving_rows(start.grid),
                kept.len() + total == FIELD_HEIGHT,
                forall|r: int| 0 <= r < kept.len() ==> row_wf(#[trigger] kept[r]),
                self.game_map.len() <= FIELD_HEIGHT,
                self.game_map.len() >= kept.len(),
                grid_of(&self.game_map) == empty_grid((self.game_map.len() - kept.len()) as nat)
                    + kept,
                self.current_level == level_after(
                    start.level,
                    start.lines,
                    (self.game_map.len() - kept.len()) as nat,
                ),
                self.score == start.score + points_awarded(start.level, total),
                self.num_lines == start.lines + (self.game_map.len() - kept.len()),
                self.current_piece == start.piece,
            decreases FIELD_HEIGHT - self.game_map.len(),
        {
            let ghost added = (self.game_map.len() - kept.len()) as nat;
            let ghost before = grid_of(&self.game_map);
            proof {
                assert(added < total);
                assert(1 <= level_after(start.level, start.lines, added) <= LEVEL_SLOTS);
            }
            self.increase_line();
            prepend_empty_row(&mut self.game_map);
            proof {
                assert(grid_of(&self.game_map) =~= empty_grid(added + 1) + kept);
                assert(level_after(start.level, start.lines, added + 1) == self.current_level);
            }
        }
        proof {
            assert(self@.grid == cleared(start.grid));
            assert forall|r: int| 0 <= r < self@.grid.len() implies row_wf(
                #[trigger] self@.grid[r],
            ) by {
                if r < total {
                    assert(self@.grid[r] == empty_grid(total)[r]);
                } else {
                    assert(self@.grid[r] == kept[r - total]);
                }
            }
            lemma_level_at_least(start.level, start.lines, total);
        }
    }

    /// What a finished session reports: score, lines cleared and level
    /// reached.
    pub fn report(&self) -> (result: (u32, u32, u32))
        ensures
            result == (self.score, self.num_lines, self.current_level),
    {
        (self.score, self.num_lines, self.current_level)
    }

    /// Tells whether the session is well formed: the field has its fixed
    /// shape, the level is at least one, and the active piece shows one of
    /// its kind's states. A session that only this library's operations have
    /// touched is; one whose fields were written directly may not be.
    pub fn is_well_formed(&self) -> (ok: bool)
        ensures
            ok == self@.wf(),
    {
        let piece_ok = match self.current_piece {
            Some(piece) => piece.current_state < piece.kind.num_states(),
            None => true,
        };
        piece_ok && self.current_level >= 1 && is_well_formed(&self.game_map)
    }

    /// Tells whether score, line count and level leave room for any clear,
    /// up to one of the whole field. Where they do, every operation of the
    /// session that may clear rows can be called.
    pub fn has_headroom(&self) -> (ok: bool)
        ensures
            ok == self@.has_headroom(),
    {
        let ghost level = self@.level;
        let ghost lines = self@.lines;
        if self.score as u64 + 16 * (self.current_level as u64) + FULL_CLEAR_BONUS as u64
            > u32::MAX as u64 || self.num_lines > u32::MAX - 16 {
            return false;
        }
        let mut reached: u32 = self.current_level;
        let mut counted: u32 = 0;
        while counted < 16
            invariant
                counted <= 16,
                level == self.current_level,
                lines == self.num_lines,
                lines + 16 <= u32::MAX,
                reached == level_after(level, lines, counted as nat),
                forall|k: nat|
                    k < counted ==> 1 <= #[trigger] level_after(level, lines, k) <= LEVEL_SLOTS,
            decreases 16 - counted,
        {
            if reached < 1 || reached > LEVEL_SLOTS {
                return false;
            }
            if self.num_lines + counted + 1 > LEVEL_LINES[reached as usize - 1] {
                reached += 1;
            }
            counted += 1;
        }
        true
    }

    /// Writes the active piece into the field and retires it: every occupied
    /// cell of its mask is stored in the field cell below it, where the field
    /// has such a cell. Without an active piece nothing is written.
    pub fn lock_piece(&mut self)
        requires
            old(self)@.wf(),
        ensures
            final(self)@ == old(self)@.locked(),
            final(self)@.wf(),
    {
        let ghost start = self@.grid;
        match self.current_piece {
            Some(piece) => {
                let mask = piece.occupancy_at(piece.current_state);
                let mut row: usize = 0;
                proof {
                    assert(start =~~= stamped_upto(start, piece, 0, 0));
                }
                while row < 4
                    invariant
                        row <= 4,
                        piece.wf(),
                        grid_wf(start),
                        mask == rotation_mask(piece.kind, piece.current_state as int),
                        grid_of(&self.game_map) == stamped_upto(start, piece, row as int, 0),
                        self.current_level == old(self).current_level,
                        self.score == old(self).score,
                        self.num_lines == old(self).num_lines,
                    decreases 4 - row,
                {
                    let mut col: usize = 0;
                    while col < 4
                        invariant
                            row < 4,
                            col <= 4,
                            piece.wf(),
                            grid_wf(start),
                            mask == rotation_mask(piece.kind, piece.current_state as int),
                            grid_of(&self.game_map) == stamped_upto(
                                start,
                                piece,
                                row as int,
                                col as int,
                            ),
                            self.current_level == old(self).current_level,
                            self.score == old(self).score,
                            self.num_lines == old(self).num_lines,
                        decreases 4 - col,
                    {
                        let ghost before = grid_of(&self.game_map);
                        if mask[row][col] != 0 {
                            match target_cell(&self.game_map, piece.x, piece.y, row, col) {
                                Some((r, c)) => {
                                    write_cell(&mut self.game_map, r, c, mask[row][col]);
                                },
                                None => {},
                            }
                        }
                        proof {
                            assert(mask[row as int][col as int] == mask_cell(
                                piece.kind,
                                piece.current_state as int,
                                row as int,
                                col as int,
                            ));
                            assert(grid_of(&self.game_map) =~~= stamped_upto(
                                start,
                                piece,
                                row as int,
                                col + 1,
                            ));
                        }
                        col += 1;
                    }
                    proof {
                        assert(stamped_upto(start, piece, row as int, 4) =~~= stamped_upto(
                            start,
                            piece,
                            row + 1,
                            0,
                        ));
                    }
                    row += 1;
                }
                proof {
                    assert(stamped_upto(start, piece, 4, 0) =~~= stamped(start, piece));
                    lemma_stamped_wf(start, piece);
                }
            },
            None => {},
        }
        self.current_piece = None;
    }

    /// Locks the active piece into the field, then clears and books the rows
    /// that this completed.
    pub fn make_permanent(&mut self)
        requires
            old(self)@.wf(),
            old(self)@.can_settle(),
        ensures
            final(self)@ == old(self)@.settled(),
            final(self)@.wf(),
    {
        self.lock_piece();
        self.check_lines();
    }

    /// Takes `piece` as the active piece where none is active and it fits
    /// the field where it stands. A refusal while no piece is active means
    /// that the field has filled up: the game is over.
    pub fn enter(&mut self, piece: Tetromino) -> (accepted: bool)
        requires
            piece.wf(),
        ensures
            accepted == old(self)@.admits(piece),
            final(self)@ == old(self)@.entered(piece),
            old(self)@.wf() ==> final(self)@.wf(),
            old(self)@.piece_placed() ==> final(self)@.piece_placed(),
    {
        if self.current_piece.is_none() && piece.test_current_position(&self.game_map) {
            self.current_piece = Some(piece);
            true
        } else {
            false
        }
    }

    /// Makes sure that a piece is active. Where one is, nothing happens.
    /// Where none is, the next piece is created at its spawn position and
    /// enters the field if it fits there; if it does not, the game is over
    /// and the session stays as it is. Returns whether a piece is active
    /// afterwards.
    pub fn spawn(&mut self, generator: &mut PieceGenerator) -> (alive: bool)
        ensures
            alive == final(self)@.piece is Some,
            old(self)@.piece is Some ==> final(self)@ == old(self)@ && *final(generator) == *old(
                generator,
            ),
            old(self)@.piece is None ==> (final(generator).last matches Some(kind)
                && final(self)@ == old(self)@.entered(Tetromino::spawned(kind))),
            old(self)@.wf() ==> final(self)@.wf(),
            old(self)@.piece_placed() ==> final(self)@.piece_placed(),
    {
        if self.current_piece.is_some() {
            return true;
        }
        let piece = self.create_new_tetromino(generator);
        self.enter(piece)
    }

    /// Tells whether `elapsed_ms` milliseconds without a drop are more than
    /// the fall interval allows. The interval is read from the table slot of
    /// the level after the current one.
    pub fn gravity_due(&self, elapsed_ms: u64) -> (due: bool)
        requires
            self.current_level < LEVEL_SLOTS,
        ensures
            due == (elapsed_ms > fall_interval(self@.level)),
    {
        elapsed_ms > LEVEL_TIMES[self.current_level as usize] as u64
    }

    /// Moves the active piece one row down, or locks it and clears the
    /// completed rows where the row below refuses it. Returns whether the
    /// piece was locked. Without an active piece nothing happens.
    pub fn step_down(&mut self) -> (locked: bool)
        requires
            old(self)@.wf(),
            old(self)@.can_fall(),
        ensures
            final(self)@ == old(self)@.fallen(),
            locked == (old(self)@.piece is Some && !old(self)@.can_descend()),
            final(self)@.wf(),
            final(self)@.piece_placed(),
    {
        match self.current_piece {
            Some(mut piece) => {
                proof {
                    if self@.can_descend() {
                        lemma_fits_bounds(
                            self@.grid,
                            piece.kind,
                            piece.current_state as int,
                            piece.x as int,
                            piece.y + 1,
                        );
                    }
                }
                let moved = piece.y < FIELD_HEIGHT && piece.try_move(
                    &self.game_map,
                    piece.x,
                    piece.y + 1,
                );
                if moved {
                    self.current_piece = Some(piece);
                    false
                } else {
                    self.make_permanent();
                    true
                }
            },
            None => false,
        }
    }

    /// Applies gravity: where `elapsed_ms` milliseconds since the last drop
    /// exceed the fall interval, the active piece takes one step down (or is
    /// locked). Returns whether the interval was exceeded, in which case the
    /// caller starts timing the next drop afresh.
    pub fn advance_gravity(&mut self, elapsed_ms: u64) -> (due: bool)
        requires
            old(self)@.wf(),
            old(self).current_level < LEVEL_SLOTS,
            elapsed_ms > fall_interval(old(self)@.level) ==> old(self)@.can_fall(),
        ensures
            due == (elapsed_ms > fall_interval(old(self)@.level)),
            final(self)@ == if due {
                old(self)@.fallen()
            } else {
                old(self)@
            },
            final(self)@.wf(),
            old(self)@.piece_placed() ==> final(self)@.piece_placed(),
    {
        if self.gravity_due(elapsed_ms) {
            self.step_down();
            true
        } else {
            false
        }
    }
}

/// The grid while a piece is being written into it, row by row and cell by
/// cell: the covered cells that lie in the first `rows` rows of the mask, or
/// in the first `cols` columns of the row after them, are written.
spec fn stamped_upto(grid: Seq<Seq<u8>>, piece: Tetromino, rows: int, cols: int) -> Seq<Seq<u8>> {
    Seq::new(
        grid.len(),
        |r: int|
            Seq::new(
                grid[r].len(),
                |c: int|
                    if covers(piece, r, c) && (r - piece.y < rows || (r - piece.y == rows && c
                        - piece.x < cols)) {
                        mask_cell(
                            piece.kind,
                            piece.current_state as int,
                            r - piece.y,
                            c - piece.x,
                        )
                    } else {
                        grid[r][c]
                    },
            ),
    )
}

/// The milliseconds in `secs` seconds and `subsec_nanos` nanoseconds,
/// fractions of a millisecond dropped.
pub open spec fn whole_millis(secs: u64, subsec_nanos: u32) -> nat {
    (secs * 1000 + subsec_nanos / 1_000_000) as nat
}

/// Expresses a duration given in seconds and nanoseconds in milliseconds.
/// A duration of more milliseconds than a `u64` holds comes out as
/// `u64::MAX`.
pub fn elapsed_millis(secs: u64, subsec_nanos: u32) -> (ms: u64)
    ensures
        ms == if whole_millis(secs, subsec_nanos) <= u64::MAX {
            whole_millis(secs, subsec_nanos)
        } else {
            u64::MAX as nat
        },
{
    let fraction: u64 = (subsec_nanos / 1_000_000) as u64;
    if secs > (u64::MAX - fraction) / 1000 {
        u64::MAX
    } else {
        secs * 1000 + fraction
    }
}

/// Tells whether the time since `timer`, as the system clock shows it, is
/// more than the fall interval allows. The clock is read here and nothing
/// else is done: what it shows is not known, so nothing is claimed of the
/// answer; `time_over_after` decides it and states the rule for every reading.
pub fn is_time_over(game: &Game, timer: &SystemTime) -> (due: bool)
    requires
        game.current_level < LEVEL_SLOTS,
{
    let reading = match timer.elapsed() {
        Ok(elapsed) => Some((elapsed.as_secs(), elapsed.subsec_nanos())),
        Err(_) => None,
    };
    time_over_after(game, reading)
}

/// The fall interval is exceeded after the given reading of the clock: the
/// reading is a time of `secs` seconds and `subsec_nanos` nanoseconds whose
/// whole milliseconds are more than the interval. No reading, which is what
/// a clock that has gone backwards gives, exceeds nothing.
pub open spec fn exceeds_interval(level: nat, reading: Option<(u64, u32)>) -> bool {
    match reading {
        Some((secs, subsec_nanos)) => whole_millis(secs, subsec_nanos) > fall_interval(level),
        None => false,
    }
}

/// Tells whether a piece is due to fall after the given reading of the
/// clock: the time since the last drop in seconds and nanoseconds, or
/// nothing where the clock has gone backwards.
pub fn time_over_after(game: &Game, reading: Option<(u64, u32)>) -> (due: bool)
    requires
        game.current_level < LEVEL_SLOTS,
    ensures
        due == exceeds_interval(game@.level, reading),
{
    match reading {
        Some((secs, subsec_nanos)) => game.gravity_due(elapsed_millis(secs, subsec_nanos)),
        None => false,
    }
}

} // verus!
