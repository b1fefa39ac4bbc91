//! The piece catalog (kinds, colors, rotation tables) and the live piece with
//! its collision, movement and rotation rules.

use vstd::prelude::*;
use crate::field::cell_free;
use crate::field::grid_of;
use crate::field::target_cell;

verus! {

/// One orientation of a piece: a 4x4 grid whose cells are `0` (empty) or the
/// color of the piece's kind.
pub type Mask = [[u8; 4]; 4];

/// The rotation states of the I piece, in the order in which it turns.
pub const STATES_I: [[[u8; 4]; 4]; 2] = [
    [[1, 1, 1, 1], [0, 0, 0, 0], [0, 0, 0, 0], [0, 0, 0, 0]],
    [[0, 1, 0, 0], [0, 1, 0, 0], [0, 1, 0, 0], [0, 1, 0, 0]],
];

/// The rotation states of the J piece, in the order in which it turns.
pub const STATES_J: [[[u8; 4]; 4]; 4] = [
    [[2, 2, 2, 0], [2, 0, 0, 0], [0, 0, 0, 0], [0, 0, 0, 0]],
    [[2, 2, 0, 0], [0, 2, 0, 0], [0, 2, 0, 0], [0, 0, 0, 0]],
    [[0, 0, 2, 0], [2, 2, 2, 0], [0, 0, 0, 0], [0, 0, 0, 0]],
    [[2, 0, 0, 0], [2, 0, 0, 0], [2, 2, 0, 0], [0, 0, 0, 0]],
];

/// The rotation states of the L piece, in the order in which it turns.
pub const STATES_L: [[[u8; 4]; 4]; 4] = [
    [[3, 3, 3, 0], [0, 0, 3, 0], [0, 0, 0, 0], [0, 0, 0, 0]],
    [[0, 3, 0, 0], [0, 3, 0, 0], [3, 3, 0, 0], [0, 0, 0, 0]],
    [[3, 0, 0, 0], [3, 3, 3, 0], [0, 0, 0, 0], [0, 0, 0, 0]],
    [[3, 3, 0, 0], [3, 0, 0, 0], [3, 0, 0, 0], [0, 0, 0, 0]],
];

/// The rotation states of the O piece, in the order in which it turns.
pub const STATES_O: [[[u8; 4]; 4]; 1] = [
    [[4, 4, 0, 0], [4, 4, 0, 0], [0, 0, 0, 0], [0, 0, 0, 0]],
];

/// The rotation states of the S piece, in the order in which it turns.
pub const STATES_S: [[[u8; 4]; 4]; 2] = [
    [[0, 5, 5, 0], [5, 5, 0, 0], [0, 0, 0, 0], [0, 0, 0, 0]],
    [[0, 5, 0, 0], [0, 5, 5, 0], [0, 0, 5, 0], [0, 0, 0, 0]],
];

/// The rotation states of the Z piece, in the order in which it turns.
pub const STATES_Z: [[[u8; 4]; 4]; 2] = [
    [[6, 6, 0, 0], [0, 6, 6, 0], [0, 0, 0, 0], [0, 0, 0, 0]],
    [[0, 0, 6, 0], [0, 6, 6, 0], [0, 6, 0, 0], [0, 0, 0, 0]],
];

/// The rotation states of the T piece, in the order in which it turns.
pub const STATES_T: [[[u8; 4]; 4]; 4] = [
    [[7, 7, 7, 0], [0, 7, 0, 0], [0, 0, 0, 0], [0, 0, 0, 0]],
    [[0, 7, 0, 0], [7, 7, 0, 0], [0, 7, 0, 0], [0, 0, 0, 0]],
    [[0, 7, 0, 0], [7, 7, 7, 0], [0, 0, 0, 0], [0, 0, 0, 0]],
    [[0, 7, 0, 0], [0, 7, 7, 0], [0, 7, 0, 0], [0, 0, 0, 0]],
];

/// The seven tetromino kinds.
#[derive(Clone, Copy, PartialEq, Eq, Debug, Structural)]
pub enum Kind {
    I,
    J,
    L,
    O,
    S,
    Z,
    T,
}

/// The mask of `kind` at rotation state `state`.
pub open spec fn rotation_mask(kind: Kind, state: int) -> Mask {
    match kind {
        Kind::I => STATES_I[state],
        Kind::J => STATES_J[state],
        Kind::L => STATES_L[state],
        Kind::O => STATES_O[state],
        Kind::S => STATES_S[state],
        Kind::Z => STATES_Z[state],
        Kind::T => STATES_T[state],
    }
}

/// The value of one cell of a rotation mask.
pub open spec fn mask_cell(kind: Kind, state: int, row: int, col: int) -> u8 {
    rotation_mask(kind, state)[row][col]
}

impl Kind {
    /// The color identifier that the kind's blocks carry, `1..=7`.
    pub open spec fn spec_color(self) -> u8 {
        match self {
            Kind::I => 1,
            Kind::J => 2,
            Kind::L => 3,
            Kind::O => 4,
            Kind::S => 5,
            Kind::Z => 6,
            Kind::T => 7,
        }
    }

    /// How many rotation states the kind has.
    pub open spec fn spec_num_states(self) -> u8 {
        match self {
            Kind::I => 2,
            Kind::J => 4,
            Kind::L => 4,
            Kind::O => 1,
            Kind::S => 2,
            Kind::Z => 2,
            Kind::T => 4,
        }
    }

    #[verifier::when_used_as_spec(spec_color)]
    pub fn color(self) -> (c: u8)
        ensures
            c == self.spec_color(),
            1 <= c <= 7,
    {
        match self {
            Kind::I => 1,
            Kind::J => 2,
            Kind::L => 3,
            Kind::O => 4,
            Kind::S => 5,
            Kind::Z => 6,
            Kind::T => 7,
        }
    }

    #[verifier::when_used_as_spec(spec_num_states)]
    pub fn num_states(self) -> (n: u8)
        ensures
            n == self.spec_num_states(),
            1 <= n <= 4,
    {
        match self {
            Kind::I => 2,
            Kind::J => 4,
            Kind::L => 4,
            Kind::O => 1,
            Kind::S => 2,
            Kind::Z => 2,
            Kind::T => 4,
        }
    }

    /// Looks up the mask of rotation state `state` in the catalog.
    pub fn mask(self, state: u8) -> (m: Mask)
        requires
            state < self.num_states(),
        ensures
            m == rotation_mask(self, state as int),
    {
        let i: usize = state as usize;
        match self {
            Kind::I => STATES_I[i],
            Kind::J => STATES_J[i],
            Kind::L => STATES_L[i],
            Kind::O => STATES_O[i],
            Kind::S => STATES_S[i],
            Kind::Z => STATES_Z[i],
            Kind::T => STATES_T[i],
        }
    }
}

/// Every cell of every mask in the catalog is empty or holds its kind's color.
pub proof fn lemma_mask_cells(kind: Kind, state: int, row: int, col: int)
    requires
        0 <= state < kind.num_states(),
        0 <= row < 4,
        0 <= col < 4,
    ensures
        mask_cell(kind, state, row, col) == 0 || mask_cell(kind, state, row, col) == kind.color(),
{
}

/// Every mask in the catalog has an occupied cell in its top row, within the
/// first three columns.
pub proof fn lemma_mask_occupied(kind: Kind, state: int)
    requires
        0 <= state < kind.num_states(),
    ensures
        exists|col: int| 0 <= col < 3 && #[trigger] mask_cell(kind, state, 0, col) != 0,
{
    if mask_cell(kind, state, 0, 0) != 0 {
    } else if mask_cell(kind, state, 0, 1) != 0 {
    } else {
        assert(mask_cell(kind, state, 0, 2) != 0);
    }
}

/// The mask of `kind` at rotation state `state`, with its origin at column `x`
/// and row `y` of the grid, covers no cell that is missing from the grid or
/// occupied. Empty cells of the mask may lie anywhere.
pub open spec fn fits_at(grid: Seq<Seq<u8>>, kind: Kind, state: int, x: int, y: int) -> bool {
    forall|row: int, col: int|
        0 <= row < 4 && 0 <= col < 4 && #[trigger] mask_cell(kind, state, row, col) != 0
            ==> cell_free(grid, y + row, x + col)
}

/// The row at which a piece comes to rest when it is moved down one row at a
/// time from row `y` until the next row is refused.
pub open spec fn landing_row(grid: Seq<Seq<u8>>, kind: Kind, state: int, x: int, y: int) -> int
    decreases grid.len() - y,
{
    if 0 <= y && y + 1 < grid.len() && fits_at(grid, kind, state, x, y + 1) {
        landing_row(grid, kind, state, x, y + 1)
    } else {
        y
    }
}

/// A mask that fits lies with its origin inside the grid's rows and at most
/// two columns to the left of the grid.
pub proof fn lemma_fits_bounds(grid: Seq<Seq<u8>>, kind: Kind, state: int, x: int, y: int)
    requires
        0 <= state < kind.num_states(),
        fits_at(grid, kind, state, x, y),
    ensures
        -2 <= x,
        0 <= y < grid.len(),
        x < grid[y].len(),
{
    lemma_mask_occupied(kind, state);
    let col = choose|col: int| 0 <= col < 3 && #[trigger] mask_cell(kind, state, 0, col) != 0;
    assert(cell_free(grid, y + 0, x + col));
}

/// The landing row is at or below the starting row, every row passed on the
/// way accepts the piece, and the row after the landing row refuses it.
pub proof fn lemma_landing_row(grid: Seq<Seq<u8>>, kind: Kind, state: int, x: int, y: int)
    requires
        0 <= state < kind.num_states(),
        0 <= y,
    ensures
        y <= landing_row(grid, kind, state, x, y),
        forall|k: int|
            y < k <= landing_row(grid, kind, state, x, y) ==> fits_at(grid, kind, state, x, k),
        !fits_at(grid, kind, state, x, landing_row(grid, kind, state, x, y) + 1),
    decreases grid.len() - y,
{
    if y + 1 < grid.len() && fits_at(grid, kind, state, x, y + 1) {
        lemma_landing_row(grid, kind, state, x, y + 1);
    } else if fits_at(grid, kind, state, x, y + 1) {
        lemma_fits_bounds(grid, kind, state, x, y + 1);
    }
}

/// A live piece: its kind, the position of its mask's origin in the field,
/// and the rotation state it currently shows.
#[derive(Clone, Copy, PartialEq, Eq, Debug, Structural)]
pub struct Tetromino {
    pub kind: Kind,
    /// Column of the mask's origin; may be negative.
    pub x: isize,
    /// Row of the mask's origin.
    pub y: usize,
    /// Index into the kind's rotation states.
    pub current_state: u8,
}

/// Tells whether the field has an empty cell `row` rows below `y` and `col`
/// columns right of `x`.
fn target_free(field: &Vec<Vec<u8>>, x: isize, y: usize, row: usize, col: usize) -> (free: bool)
    requires
        row < 4,
        col < 4,
    ensures
        free == cell_free(grid_of(field), y + row, x + col),
{
    match target_cell(field, x, y, row, col) {
        Some((r, c)) => field[r][c] == 0,
        None => false,
    }
}

impl Tetromino {
    /// The rotation state is one of the kind's states.
    pub open spec fn wf(&self) -> bool {
        self.current_state < self.kind.num_states()
    }

    /// A piece of the given kind as it enters the field: top row, first
    /// rotation state, in the middle columns.
    pub open spec fn spawned(kind: Kind) -> Tetromino {
        Tetromino { kind, x: if kind == Kind::O { 5 } else { 4 }, y: 0, current_state: 0 }
    }

    /// The piece fits the grid where it stands.
    pub open spec fn placed(&self, grid: Seq<Seq<u8>>) -> bool {
        fits_at(grid, self.kind, self.current_state as int, self.x as int, self.y as int)
    }

    /// The same piece with its origin at (`x`, `y`).
    pub open spec fn moved_to(self, x: isize, y: usize) -> Tetromino {
        Tetromino { x, y, ..self }
    }

    /// The rotation state that follows the current one: the successor of
    /// the current index, wrapping to `0` after the kind's last state.
    pub open spec fn next_state(&self) -> u8 {
        if self.current_state + 1 < self.kind.num_states() {
            (self.current_state + 1) as u8
        } else {
            0
        }
    }

    /// The piece after one rotation request: turned to the next state where
    /// that state fits at the piece's position, unchanged where it does not.
    pub open spec fn rotated(self, grid: Seq<Seq<u8>>) -> Tetromino {
        if fits_at(grid, self.kind, self.next_state() as int, self.x as int, self.y as int) {
            Tetromino { current_state: self.next_state(), ..self }
        } else {
            self
        }
    }

    /// The piece after `n` rotation requests in a row.
    pub open spec fn rotated_times(self, grid: Seq<Seq<u8>>, n: nat) -> Tetromino
        decreases n,
    {
        if n == 0 {
            self
        } else {
            self.rotated_times(grid, (n - 1) as nat).rotated(grid)
        }
    }

    /// Every rotation state of the piece fits at the piece's position.
    pub open spec fn turns_freely(&self, grid: Seq<Seq<u8>>) -> bool {
        forall|state: int|
            0 <= state < self.kind.num_states() ==> #[trigger] fits_at(
                grid,
                self.kind,
                state,
                self.x as int,
                self.y as int,
            )
    }

    /// The piece after a hard drop: same column and state, at its landing row.
    pub open spec fn dropped(self, grid: Seq<Seq<u8>>) -> Tetromino {
        Tetromino {
            y: landing_row(
                grid,
                self.kind,
                self.current_state as int,
                self.x as int,
                self.y as int,
            ) as usize,
            ..self
        }
    }

    /// Creates a piece of the given kind at its spawn position.
    pub fn new(kind: Kind) -> (piece: Tetromino)
        ensures
            piece == Self::spawned(kind),
            piece.wf(),
    {
        let x: isize = if kind == Kind::O { 5 } else { 4 };
        Tetromino { kind, x, y: 0, current_state: 0 }
    }

    /// Looks up the mask that the piece shows at rotation state `state_index`.
    pub fn occupancy_at(&self, state_index: u8) -> (mask: Mask)
        requires
            state_index < self.kind.num_states(),
        ensures
            mask == rotation_mask(self.kind, state_index as int),
    {
        self.kind.mask(state_index)
    }

    /// Tells whether the piece, shown at `state_index` with its origin at
    /// (`x`, `y`), covers only cells of the field that exist and are empty.
    pub fn fits(&self, field: &Vec<Vec<u8>>, x: isize, y: usize, state_index: u8) -> (ok: bool)
        requires
            state_index < self.kind.num_states(),
        ensures
            ok == fits_at(grid_of(field), self.kind, state_index as int, x as int, y as int),
    {
        let mask = self.occupancy_at(state_index);
        let ghost grid = grid_of(field);
        let ghost state = state_index as int;
        let mut row: usize = 0;
        while row < 4
            invariant
                row <= 4,
                grid == grid_of(field),
                state == state_index as int,
                mask == rotation_mask(self.kind, state),
                forall|r: int, c: int|
                    0 <= r < row && 0 <= c < 4 && #[trigger] mask_cell(self.kind, state, r, c) != 0
                        ==> cell_free(grid, y + r, x + c),
            decreases 4 - row,
        {
            let mut col: usize = 0;
            while col < 4
                invariant
                    row < 4,
                    col <= 4,
                    grid == grid_of(field),
                    state == state_index as int,
                    mask == rotation_mask(self.kind, state),
                    forall|r: int, c: int|
                        0 <= r < row && 0 <= c < 4 && #[trigger] mask_cell(self.kind, state, r, c)
                            != 0 ==> cell_free(grid, y + r, x + c),
                    forall|c: int|
                        0 <= c < col && #[trigger] mask_cell(self.kind, state, row as int, c) != 0
                            ==> cell_free(grid, y + row, x + c),
                decreases 4 - col,
            {
                if mask[row][col] != 0 && !target_free(field, x, y, row, col) {
                    assert(mask_cell(self.kind, state, row as int, col as int) != 0);
                    return false;
                }
                col += 1;
            }
            row += 1;
        }
        true
    }

    /// Moves the piece to (`new_x`, `new_y`) if it fits there in its current
    /// state, and leaves it where it is otherwise.
    pub fn try_move(&mut self, field: &Vec<Vec<u8>>, new_x: isize, new_y: usize) -> (moved: bool)
        requires
            old(self).wf(),
        ensures
            moved == fits_at(
                grid_of(field),
                old(self).kind,
                old(self).current_state as int,
                new_x as int,
                new_y as int,
            ),
            moved ==> *final(self) == old(self).moved_to(new_x, new_y),
            !moved ==> *final(self) == *old(self),
            final(self).wf(),
            old(self).placed(grid_of(field)) ==> final(self).placed(grid_of(field)),
    {
        if self.fits(field, new_x, new_y, self.current_state) {
            self.x = new_x;
            self.y = new_y;
            true
        } else {
            false
        }
    }

    /// The next rotation state is the current index plus one, modulo the
    /// number of states of the kind.
    pub proof fn lemma_next_state_wraps(&self)
        requires
            self.wf(),
        ensures
            self.next_state() == (self.current_state + 1) % (self.kind.num_states() as int),
            self.next_state() < self.kind.num_states(),
    {
        let n = self.kind.num_states();
        if n == 1 {
            assert(self.next_state() == (self.current_state + 1) % 1);
        } else if n == 2 {
            assert(self.next_state() == (self.current_state + 1) % 2);
        } else {
            assert(self.next_state() == (self.current_state + 1) % 4);
        }
    }

    /// Turns the piece to its next rotation state if that state fits at the
    /// piece's position; otherwise the request is dropped. No other position
    /// is tried.
    pub fn rotate(&mut self, field: &Vec<Vec<u8>>)
        requires
            old(self).wf(),
        ensures
            *final(self) == old(self).rotated(grid_of(field)),
            final(self).wf(),
            old(self).placed(grid_of(field)) ==> final(self).placed(grid_of(field)),
    {
        let next: u8 = (self.current_state + 1) % self.kind.num_states();
        proof {
            self.lemma_next_state_wraps();
        }
        if self.fits(field, self.x, self.y, next) {
            self.current_state = next;
        }
    }

    /// Tells whether the piece fits the field where it stands.
    pub fn test_current_position(&self, field: &Vec<Vec<u8>>) -> (ok: bool)
        requires
            self.wf(),
        ensures
            ok == self.placed(grid_of(field)),
    {
        self.fits(field, self.x, self.y, self.current_state)
    }

    /// Moves the piece down one row at a time until the next row refuses it.
    pub fn hard_drop(&mut self, field: &Vec<Vec<u8>>)
        requires
            old(self).wf(),
        ensures
            *final(self) == old(self).dropped(grid_of(field)),
            final(self).wf(),
            old(self).placed(grid_of(field)) ==> final(self).placed(grid_of(field)),
    {
        proof {
            if self.placed(grid_of(field)) {
                assert(grid_of(field).len() == field.len());
                lemma_dropped_placed(*self, grid_of(field));
            }
        }
        let ghost grid = grid_of(field);
        let mut falling = true;
        while falling
            invariant
                grid == grid_of(field),
                self.wf(),
                self.kind == old(self).kind,
                self.x == old(self).x,
                self.current_state == old(self).current_state,
                falling ==> landing_row(
                    grid,
                    self.kind,
                    self.current_state as int,
                    self.x as int,
                    self.y as int,
                ) == landing_row(
                    grid,
                    self.kind,
                    self.current_state as int,
                    self.x as int,
                    old(self).y as int,
                ),
                !falling ==> self.y == landing_row(
                    grid,
                    self.kind,
                    self.current_state as int,
                    self.x as int,
                    old(self).y as int,
                ),
            decreases
                if !falling {
                    0
                } else if self.y < field.len() {
                    field.len() - self.y + 1
                } else {
                    1
                },
        {
            if self.y < field.len() && self.y + 1 < field.len() {
                let x = self.x;
                let y = self.y + 1;
                falling = self.try_move(field, x, y);
            } else {
                falling = false;
            }
        }
    }
}

/// A hard drop of a piece that fits where it stands leaves it, in the same
/// column and state, at a row at or below its own where it still fits, with
/// every row in between fitting too, and where one row further down it
/// would not fit.
pub proof fn lemma_dropped_placed(piece: Tetromino, grid: Seq<Seq<u8>>)
    requires
        piece.wf(),
        piece.placed(grid),
        grid.len() <= usize::MAX,
    ensures
        piece.dropped(grid).wf(),
        piece.dropped(grid).placed(grid),
        piece.dropped(grid).y >= piece.y,
        forall|row: int|
            piece.y <= row <= piece.dropped(grid).y ==> fits_at(
                grid,
                piece.kind,
                piece.current_state as int,
                piece.x as int,
                row,
            ),
        !fits_at(
            grid,
            piece.kind,
            piece.current_state as int,
            piece.x as int,
            piece.dropped(grid).y + 1,
        ),
{
    let landing = landing_row(
        grid,
        piece.kind,
        piece.current_state as int,
        piece.x as int,
        piece.y as int,
    );
    lemma_landing_row(grid, piece.kind, piece.current_state as int, piece.x as int, piece.y as int);
    if landing > piece.y {
        lemma_fits_bounds(grid, piece.kind, piece.current_state as int, piece.x as int, landing);
    }
}

/// Rotation is cyclic: after as many rotation requests as the kind has
/// states, a piece that turns freely where it stands, or whose very next
/// state is refused there, shows the state it started with.
pub proof fn lemma_rotation_cycle(piece: Tetromino, grid: Seq<Seq<u8>>)
    requires
        piece.wf(),
        piece.turns_freely(grid) || !fits_at(
            grid,
            piece.kind,
            piece.next_state() as int,
            piece.x as int,
            piece.y as int,
        ),
    ensures
        piece.rotated_times(grid, piece.kind.num_states() as nat) == piece,
{
    reveal_with_fuel(Tetromino::rotated_times, 5);
    if piece.turns_freely(grid) {
        assert(fits_at(grid, piece.kind, 0, piece.x as int, piece.y as int));
        if piece.kind.num_states() > 1 {
            assert(fits_at(grid, piece.kind, 1, piece.x as int, piece.y as int));
        }
        if piece.kind.num_states() > 2 {
            assert(fits_at(grid, piece.kind, 2, piece.x as int, piece.y as int));
            assert(fits_at(grid, piece.kind, 3, piece.x as int, piece.y as int));
        }
    }
}

/// On every other well-formed piece the cycle breaks: a piece whose next
/// state is accepted while some later state is refused ends in a state other
/// than the one it started with.
pub proof fn lemma_rotation_stuck(piece: Tetromino, grid: Seq<Seq<u8>>)
    requires
        piece.wf(),
        !piece.turns_freely(grid),
        fits_at(grid, piece.kind, piece.next_state() as int, piece.x as int, piece.y as int),
    ensures
        piece.rotated_times(grid, piece.kind.num_states() as nat).current_state
            != piece.current_state,
{
    reveal_with_fuel(Tetromino::rotated_times, 5);
}

} // verus!
