//! The player's intents and what a batch of them does to the session.
//!
//! The intents of one tick are acted on in order up to the first `Quit`.
//! Rotations and hard drops take effect at once, each on the piece as the
//! ones before left it. Moves to the side and soft drops are added up and
//! tried as one move when the batch has been read.

use vstd::prelude::*;
use std::time::SystemTime;
use crate::field::FIELD_HEIGHT;
use crate::game::Game;
use crate::session::lemma_headroom;
use crate::session::Session;
use crate::tetromino::fits_at;
use crate::tetromino::lemma_dropped_placed;
use crate::tetromino::lemma_fits_bounds;
use crate::tetromino::Tetromino;

verus! {

/// What the player asks for.
#[derive(Clone, Copy, PartialEq, Eq, Debug, Structural)]
pub enum Intent {
    /// One column to the left.
    MoveLeft,
    /// One column to the right.
    MoveRight,
    /// One row down, ahead of gravity.
    SoftDrop,
    /// All the way down, then lock.
    HardDrop,
    /// Turn to the next rotation state.
    RotateClockwise,
    /// Leave the game.
    Quit,
    /// Nothing.
    Nothing,
}

/// What a batch of intents came to, for the driver to act on.
#[derive(Clone, Copy, PartialEq, Eq, Debug, Structural)]
pub struct Outcome {
    /// The active piece was locked into the field.
    pub locked: bool,
    /// The player asked to leave.
    pub quit: bool,
    /// The drop timer starts afresh: there was a soft drop or a lock.
    pub timer_reset: bool,
}

/// The position of the first `Quit` among the intents, or their number where
/// there is none.
pub open spec fn first_quit(intents: Seq<Intent>) -> int
    decreases intents.len(),
{
    if intents.len() == 0 || intents[0] == Intent::Quit {
        0
    } else {
        1 + first_quit(intents.skip(1))
    }
}

/// The intents that are acted on: those before the first `Quit`.
pub open spec fn acted_on(intents: Seq<Intent>) -> Seq<Intent> {
    intents.take(first_quit(intents))
}

/// How often `intent` occurs among the intents.
pub open spec fn occurrences(intents: Seq<Intent>, intent: Intent) -> nat
    decreases intents.len(),
{
    if intents.len() == 0 {
        0
    } else if intents.last() == intent {
        occurrences(intents.drop_last(), intent) + 1
    } else {
        occurrences(intents.drop_last(), intent)
    }
}

/// The piece after the rotations and hard drops among the intents, each
/// applied in its turn.
pub open spec fn maneuvered(piece: Tetromino, grid: Seq<Seq<u8>>, intents: Seq<Intent>) -> Tetromino
    decreases intents.len(),
{
    if intents.len() == 0 {
        piece
    } else {
        let earlier = maneuvered(piece, grid, intents.drop_last());
        match intents.last() {
            Intent::RotateClockwise => earlier.rotated(grid),
            Intent::HardDrop => earlier.dropped(grid),
            _ => earlier,
        }
    }
}

impl Session {
    /// The column that the batch asks the piece to move to: one to the right
    /// for each `MoveRight`, one to the left for each `MoveLeft`.
    pub open spec fn target_column(self, intents: Seq<Intent>) -> int {
        self.piece.unwrap().x + occurrences(acted_on(intents), Intent::MoveRight) - occurrences(
            acted_on(intents),
            Intent::MoveLeft,
        )
    }

    /// The row that the batch asks the piece to move to: one down for each
    /// `SoftDrop`.
    pub open spec fn target_row(self, intents: Seq<Intent>) -> int {
        self.piece.unwrap().y + occurrences(acted_on(intents), Intent::SoftDrop)
    }

    /// The session with its piece rotated and dropped as the batch asks,
    /// before the summed-up move is tried.
    pub open spec fn turned(self, intents: Seq<Intent>) -> Session {
        match self.piece {
            None => self,
            Some(piece) => Session {
                piece: Some(maneuvered(piece, self.grid, acted_on(intents))),
                ..self
            },
        }
    }

    /// The summed-up move of the batch is accepted: the batch holds no hard
    /// drop, and the piece, turned as the batch asks, fits at the target.
    pub open spec fn move_accepted(self, intents: Seq<Intent>) -> bool {
        &&& self.turned(intents).piece matches Some(piece)
        &&& occurrences(acted_on(intents), Intent::HardDrop) == 0
        &&& fits_at(
            self.grid,
            piece.kind,
            piece.current_state as int,
            self.target_column(intents),
            self.target_row(intents),
        )
    }

    /// The batch ends with the piece locked: it holds a hard drop, or it
    /// holds a soft drop and the summed-up move is refused.
    pub open spec fn locks_on(self, intents: Seq<Intent>) -> bool {
        &&& self.piece is Some
        &&& !self.move_accepted(intents)
        &&& occurrences(acted_on(intents), Intent::HardDrop) > 0 || occurrences(
            acted_on(intents),
            Intent::SoftDrop,
        ) > 0
    }

    /// The session after the batch. Without an active piece nothing happens.
    pub open spec fn after_intents(self, intents: Seq<Intent>) -> Session {
        let turned = self.turned(intents);
        if self.move_accepted(intents) {
            Session {
                piece: Some(
                    turned.piece.unwrap().moved_to(
                        self.target_column(intents) as isize,
                        self.target_row(intents) as usize,
                    ),
                ),
                ..turned
            }
        } else if self.locks_on(intents) {
            turned.settled()
        } else {
            turned
        }
    }

    /// Where the batch ends with a lock, the rows that the lock completes
    /// can be booked.
    pub open spec fn can_take(self, intents: Seq<Intent>) -> bool {
        self.locks_on(intents) ==> self.turned(intents).can_settle()
    }

    /// What the driver is told of the batch. A `Quit` is noticed only while
    /// a piece is active.
    pub open spec fn outcome_of(self, intents: Seq<Intent>) -> Outcome {
        Outcome {
            locked: self.locks_on(intents),
            quit: self.piece is Some && first_quit(intents) < intents.len(),
            timer_reset: self.piece is Some && (self.locks_on(intents) || occurrences(
                acted_on(intents),
                Intent::SoftDrop,
            ) > 0),
        }
    }
}

/// The first `Quit` stands at `at` where none stands before `at` and either
/// one stands there or the intents end there.
pub proof fn lemma_first_quit(intents: Seq<Intent>, at: int)
    requires
        0 <= at <= intents.len(),
        forall|k: int| 0 <= k < at ==> intents[k] != Intent::Quit,
        at < intents.len() ==> intents[at] == Intent::Quit,
    ensures
        first_quit(intents) == at,
    decreases at,
{
    if at > 0 {
        let rest = intents.skip(1);
        assert forall|k: int| 0 <= k < at - 1 implies rest[k] != Intent::Quit by {
            assert(rest[k] == intents[k + 1]);
        }
        lemma_first_quit(rest, at - 1);
    }
}

/// Rotations and hard drops leave the kind and the column of a piece alone
/// and keep its rotation state within the kind's states. Rotations alone
/// leave its row alone too. A piece that fits where it stands still does
/// after them.
pub proof fn lemma_maneuvered(piece: Tetromino, grid: Seq<Seq<u8>>, intents: Seq<Intent>)
    requires
        piece.wf(),
        grid.len() <= usize::MAX,
    ensures
        maneuvered(piece, grid, intents).wf(),
        maneuvered(piece, grid, intents).kind == piece.kind,
        maneuvered(piece, grid, intents).x == piece.x,
        occurrences(intents, Intent::HardDrop) == 0 ==> maneuvered(piece, grid, intents).y
            == piece.y,
        piece.placed(grid) ==> maneuvered(piece, grid, intents).placed(grid),
    decreases intents.len(),
{
    if intents.len() > 0 {
        let earlier = maneuvered(piece, grid, intents.drop_last());
        lemma_maneuvered(piece, grid, intents.drop_last());
        if earlier.placed(grid) {
            lemma_dropped_placed(earlier, grid);
        }
    }
}

/// A batch of intents leaves a piece that fitted the field fitting it, or
/// locks it.
pub proof fn lemma_after_intents_placed(session: Session, intents: Seq<Intent>)
    requires
        session.wf(),
        session.piece_placed(),
    ensures
        session.after_intents(intents).piece_placed(),
{
    if let Some(piece) = session.piece {
        lemma_maneuvered(piece, session.grid, acted_on(intents));
        if session.move_accepted(intents) {
            lemma_fits_bounds(
                session.grid,
                piece.kind,
                session.turned(intents).piece.unwrap().current_state as int,
                session.target_column(intents),
                session.target_row(intents),
            );
        }
    }
}

/// With room for a clear of the whole field, any batch of intents can be
/// acted on.
pub proof fn lemma_headroom_takes(session: Session, intents: Seq<Intent>)
    requires
        session.wf(),
        session.has_headroom(),
    ensures
        session.can_take(intents),
{
    if let Some(piece) = session.piece {
        lemma_maneuvered(piece, session.grid, acted_on(intents));
        lemma_headroom(session.turned(intents));
    }
}

/// Acts on the intents of one tick and tells the driver what came of them.
pub fn apply_intents(game: &mut Game, intents: &Vec<Intent>) -> (outcome: Outcome)
    requires
        old(game)@.wf(),
        old(game)@.can_take(intents@),
    ensures
        final(game)@ == old(game)@.after_intents(intents@),
        outcome == old(game)@.outcome_of(intents@),
        final(game)@.wf(),
        old(game)@.piece_placed() ==> final(game)@.piece_placed(),
{
    let ghost start = game@;
    proof {
        if start.piece_placed() {
            lemma_after_intents_placed(start, intents@);
        }
    }
    let mut piece = match game.current_piece {
        Some(piece) => piece,
        None => {
            return Outcome { locked: false, quit: false, timer_reset: false };
        },
    };
    let ghost first = piece;
    let mut rights: usize = 0;
    let mut lefts: usize = 0;
    let mut downs: usize = 0;
    let mut dropped = false;
    let mut quit = false;
    let mut i: usize = 0;
    proof {
        assert(intents@.take(0) =~= Seq::<Intent>::empty());
    }
    while i < intents.len() && !quit
        invariant
            start.wf(),
            start.grid == game@.grid,
            start.piece == Some(first),
            0 <= i <= intents.len(),
            forall|k: int| 0 <= k < i ==> intents[k] != Intent::Quit,
            quit ==> i < intents.len() && intents[i as int] == Intent::Quit,
            rights == occurrences(intents@.take(i as int), Intent::MoveRight),
            lefts == occurrences(intents@.take(i as int), Intent::MoveLeft),
            downs == occurrences(intents@.take(i as int), Intent::SoftDrop),
            dropped == (occurrences(intents@.take(i as int), Intent::HardDrop) > 0),
            rights <= i,
            lefts <= i,
            downs <= i,
            piece == maneuvered(first, start.grid, intents@.take(i as int)),
            piece.wf(),
        decreases intents.len() - i + if quit { 0int } else { 1int },
    {
        proof {
            assert(intents@.take(i + 1).drop_last() =~= intents@.take(i as int));
            assert(intents@.take(i + 1).last() == intents[i as int]);
        }
        match intents[i] {
            Intent::Quit => {
                quit = true;
            },
            Intent::MoveLeft => {
                lefts += 1;
                i += 1;
            },
            Intent::MoveRight => {
                rights += 1;
                i += 1;
            },
            Intent::SoftDrop => {
                downs += 1;
                i += 1;
            },
            Intent::HardDrop => {
                piece.hard_drop(&game.game_map);
                dropped = true;
                i += 1;
            },
            Intent::RotateClockwise => {
                piece.rotate(&game.game_map);
                i += 1;
            },
            Intent::Nothing => {
                i += 1;
            },
        }
    }
    proof {
        lemma_first_quit(intents@, i as int);
        lemma_maneuvered(first, start.grid, acted_on(intents@));
    }
    let mut moved = false;
    if !dropped {
        let column: i128 = piece.x as i128 + rights as i128 - lefts as i128;
        proof {
            if start.move_accepted(intents@) {
                lemma_fits_bounds(
                    start.grid,
                    piece.kind,
                    piece.current_state as int,
                    start.target_column(intents@),
                    start.target_row(intents@),
                );
            }
        }
        if -2 <= column && column < 10 && piece.y < FIELD_HEIGHT && downs < FIELD_HEIGHT {
            moved = piece.try_move(&game.game_map, column as isize, piece.y + downs);
        }
    }
    let locked = !moved && (dropped || downs > 0);
    game.current_piece = Some(piece);
    if locked {
        game.make_permanent();
    }
    Outcome { locked, quit, timer_reset: locked || downs > 0 }
}

/// Acts on a single intent: the batch of one.
pub fn apply_intent(game: &mut Game, intent: Intent) -> (outcome: Outcome)
    requires
        old(game)@.wf(),
        old(game)@.can_take(seq![intent]),
    ensures
        final(game)@ == old(game)@.after_intents(seq![intent]),
        outcome == old(game)@.outcome_of(seq![intent]),
        final(game)@.wf(),
        old(game)@.piece_placed() ==> final(game)@.piece_placed(),
{
    let mut intents: Vec<Intent> = Vec::new();
    intents.push(intent);
    assert(intents@ =~= seq![intent]);
    apply_intents(game, &intents)
}

/// Acts on the intents of one tick, raises `quit` where the player asked to
/// leave, and restarts `timer` from the system clock where there was a soft
/// drop or a lock. Returns whether the active piece was locked.
pub fn handle_events(
    game: &mut Game,
    quit: &mut bool,
    timer: &mut SystemTime,
    intents: &Vec<Intent>,
) -> (locked: bool)
    requires
        old(game)@.wf(),
        old(game)@.can_take(intents@),
    ensures
        final(game)@ == old(game)@.after_intents(intents@),
        locked == old(game)@.locks_on(intents@),
        *final(quit) == (*old(quit) || old(game)@.outcome_of(intents@).quit),
        !old(game)@.outcome_of(intents@).timer_reset ==> *final(timer) == *old(timer),
        final(game)@.wf(),
        old(game)@.piece_placed() ==> final(game)@.piece_placed(),
{
    let outcome = apply_intents(game, intents);
    if outcome.quit {
        *quit = true;
    }
    if outcome.timer_reset {
        *timer = SystemTime::now();
    }
    outcome.locked
}

} // verus!
