//! The piece generator: draws the kind of the next piece at random and
//! avoids, weakly, handing out the same kind twice in a row.

use vstd::prelude::*;
use crate::tetromino::Kind;

verus! {

/// Number of tetromino kinds.
pub const KIND_COUNT: u8 = 7;

/// Draws one byte with `rand::random::<u8>()`, which samples the standard
/// distribution from the thread-local generator of the `rand` crate.
/// The byte depends on chance, so nothing is claimed of it. The call takes
/// no argument; it fails only where the operating system hands the
/// generator no entropy to start from.
#[verifier::external_body]
fn random_byte() -> (byte: u8) {
    rand::random::<u8>()
}

/// The kind with the given position in the catalog's order
/// I, J, L, O, S, Z, T.
pub open spec fn kind_at(index: int) -> Kind {
    if index == 0 {
        Kind::I
    } else if index == 1 {
        Kind::J
    } else if index == 2 {
        Kind::L
    } else if index == 3 {
        Kind::O
    } else if index == 4 {
        Kind::S
    } else if index == 5 {
        Kind::Z
    } else {
        Kind::T
    }
}

/// The kind that a drawn byte stands for: the byte is reduced modulo seven.
pub open spec fn kind_of_draw(byte: u8) -> Kind {
    kind_at(byte as int % 7)
}

/// The kind that the generator hands out when the last kind was `last`, the
/// first draw is `first` and a second draw would be `second`: the first
/// draw's kind, unless it repeats the last kind; then the second draw's kind,
/// whatever it is.
pub open spec fn chosen_kind(last: Option<Kind>, first: u8, second: u8) -> Kind {
    if last == Some(kind_of_draw(first)) {
        kind_of_draw(second)
    } else {
        kind_of_draw(first)
    }
}

/// Turns a drawn byte into a kind.
pub fn draw_to_kind(byte: u8) -> (kind: Kind)
    ensures
        kind == kind_of_draw(byte),
{
    let index: u8 = byte % KIND_COUNT;
    if index == 0 {
        Kind::I
    } else if index == 1 {
        Kind::J
    } else if index == 2 {
        Kind::L
    } else if index == 3 {
        Kind::O
    } else if index == 4 {
        Kind::S
    } else if index == 5 {
        Kind::Z
    } else {
        Kind::T
    }
}

/// Remembers the kind handed out last, so that the next draw can avoid it.
#[derive(Clone, Copy, Debug)]
pub struct PieceGenerator {
    /// The kind of the previous piece; `None` before the first one.
    pub last: Option<Kind>,
}

impl PieceGenerator {
    /// A generator that has handed out no piece yet.
    pub fn new() -> (generator: PieceGenerator)
        ensures
            generator.last is None,
    {
        PieceGenerator { last: None }
    }

    /// Tells whether a draw of `byte` would repeat the last kind.
    pub fn repeats(&self, byte: u8) -> (again: bool)
        ensures
            again == (self.last == Some(kind_of_draw(byte))),
    {
        let kind = draw_to_kind(byte);
        match self.last {
            Some(previous) => previous == kind,
            None => false,
        }
    }

    /// Decides the next kind from two draws made beforehand and remembers it.
    /// The second draw counts only where the first repeats the last kind, and
    /// it is taken as it comes: it may repeat the last kind too.
    pub fn next_kind_from(&mut self, first: u8, second: u8) -> (kind: Kind)
        ensures
            kind == chosen_kind(old(self).last, first, second),
            final(self).last == Some(kind),
    {
        let kind = if self.repeats(first) {
            draw_to_kind(second)
        } else {
            draw_to_kind(first)
        };
        self.last = Some(kind);
        kind
    }

    /// Draws the next kind at random and remembers it. A second byte is drawn
    /// only where the first repeats the last kind. Which kind comes out is
    /// left to chance; `next_kind_from` states how the draws decide it.
    pub fn next_kind(&mut self) -> (kind: Kind)
        ensures
            final(self).last == Some(kind),
    {
        let first = random_byte();
        let second = if self.repeats(first) {
            random_byte()
        } else {
            first
        };
        self.next_kind_from(first, second)
    }
}

} // verus!
