//! Players, turns and the player-count mode.
//!
//! A game is played in one of three modes (2, 3 or 6 players). A board cell
//! holds a [`Piece`]; whose move it is is a [`Turn`]. A turn owns exactly the
//! piece of the same player number, provided that player exists in the active
//! mode; the empty occupant is owned by no turn.

use vstd::prelude::*;

verus! {

/// The player-count configuration, fixed for the duration of a game.
#[derive(Clone, Copy, PartialEq, Eq, Structural, Debug)]
pub enum Mode {
    Two,
    Three,
    Six,
}

/// Whose move it is. `Nobody` only before a game has been reset.
#[derive(Clone, Copy, PartialEq, Eq, Structural, Debug)]
pub enum Turn {
    Nobody,
    Player1,
    Player2,
    Player3,
    Player4,
    Player5,
    Player6,
}

/// The occupant of a board cell.
#[derive(Clone, Copy, PartialEq, Eq, Structural, Debug)]
pub enum Piece {
    Empty,
    Player1,
    Player2,
    Player3,
    Player4,
    Player5,
    Player6,
}

/// How many players take part in a game of the given mode.
pub open spec fn spec_player_count(mode: Mode) -> int {
    match mode {
        Mode::Two => 2,
        Mode::Three => 3,
        Mode::Six => 6,
    }
}

/// The player number of a turn; 0 for `Nobody`.
pub open spec fn spec_turn_index(t: Turn) -> int {
    match t {
        Turn::Nobody => 0,
        Turn::Player1 => 1,
        Turn::Player2 => 2,
        Turn::Player3 => 3,
        Turn::Player4 => 4,
        Turn::Player5 => 5,
        Turn::Player6 => 6,
    }
}

/// The player number of a piece; 0 for `Empty`.
pub open spec fn spec_piece_index(p: Piece) -> int {
    match p {
        Piece::Empty => 0,
        Piece::Player1 => 1,
        Piece::Player2 => 2,
        Piece::Player3 => 3,
        Piece::Player4 => 4,
        Piece::Player5 => 5,
        Piece::Player6 => 6,
    }
}

/// The turn of a player number; `Nobody` outside 1..=6.
pub open spec fn turn_of_index(i: int) -> Turn {
    if i == 1 {
        Turn::Player1
    } else if i == 2 {
        Turn::Player2
    } else if i == 3 {
        Turn::Player3
    } else if i == 4 {
        Turn::Player4
    } else if i == 5 {
        Turn::Player5
    } else if i == 6 {
        Turn::Player6
    } else {
        Turn::Nobody
    }
}

/// The piece of a player number; `Empty` outside 1..=6.
pub open spec fn piece_of_index(i: int) -> Piece {
    if i == 1 {
        Piece::Player1
    } else if i == 2 {
        Piece::Player2
    } else if i == 3 {
        Piece::Player3
    } else if i == 4 {
        Piece::Player4
    } else if i == 5 {
        Piece::Player5
    } else if i == 6 {
        Piece::Player6
    } else {
        Piece::Empty
    }
}

/// A turn that may actually move in the given mode: one of the mode's
/// players, never `Nobody`.
pub open spec fn spec_valid_turn(mode: Mode, t: Turn) -> bool {
    1 <= spec_turn_index(t) <= spec_player_count(mode)
}

/// The cyclic successor among the turns valid for the mode.
pub open spec fn spec_next_turn(mode: Mode, t: Turn) -> Turn {
    if spec_turn_index(t) >= spec_player_count(mode) {
        Turn::Player1
    } else {
        turn_of_index(spec_turn_index(t) + 1)
    }
}

impl Mode {
    /// How many players take part in a game of this mode.
    pub fn player_count(&self) -> (n: u8)
        ensures
            n as int == spec_player_count(*self),
    {
        match self {
            Mode::Two => 2,
            Mode::Three => 3,
            Mode::Six => 6,
        }
    }

    /// The turn that moves after `turn` in this mode. Asking from `Nobody`,
    /// or from a turn that does not exist in this mode, is a caller bug and
    /// is excluded by contract.
    pub fn next_turn(&self, turn: Turn) -> (r: Turn)
        requires
            spec_valid_turn(*self, turn),
        ensures
            r == spec_next_turn(*self, turn),
            spec_valid_turn(*self, r),
    {
        match self {
            Mode::Two => match turn {
                Turn::Player1 => Turn::Player2,
                _ => Turn::Player1,
            },
            Mode::Three => match turn {
                Turn::Player1 => Turn::Player2,
                Turn::Player2 => Turn::Player3,
                _ => Turn::Player1,
            },
            Mode::Six => match turn {
                Turn::Player1 => Turn::Player2,
                Turn::Player2 => Turn::Player3,
                Turn::Player3 => Turn::Player4,
                Turn::Player4 => Turn::Player5,
                Turn::Player5 => Turn::Player6,
                _ => Turn::Player1,
            },
        }
    }
}

impl Turn {
    /// The player number of this turn; 0 for `Nobody`.
    pub fn index(&self) -> (i: u8)
        ensures
            i as int == spec_turn_index(*self),
    {
        match self {
            Turn::Nobody => 0,
            Turn::Player1 => 1,
            Turn::Player2 => 2,
            Turn::Player3 => 3,
            Turn::Player4 => 4,
            Turn::Player5 => 5,
            Turn::Player6 => 6,
        }
    }

    /// This turn owns the piece of the same player number, provided that
    /// player exists in the mode; nobody owns the empty occupant.
    pub open spec fn spec_owns(self, piece: Piece, mode: Mode) -> bool {
        &&& spec_piece_index(piece) == spec_turn_index(self)
        &&& 1 <= spec_turn_index(self) <= spec_player_count(mode)
    }

    /// Whether this turn may move the given occupant under the given mode.
    pub fn owns(&self, piece: Piece, mode: Mode) -> (r: bool)
        ensures
            r == self.spec_owns(piece, mode),
    {
        let ti: u8 = self.index();
        let pi: u8 = piece.index();
        ti >= 1 && ti == pi && ti <= mode.player_count()
    }
}

impl Piece {
    /// The player number of this piece; 0 for `Empty`.
    pub fn index(&self) -> (i: u8)
        ensures
            i as int == spec_piece_index(*self),
    {
        match self {
            Piece::Empty => 0,
            Piece::Player1 => 1,
            Piece::Player2 => 2,
            Piece::Player3 => 3,
            Piece::Player4 => 4,
            Piece::Player5 => 5,
            Piece::Player6 => 6,
        }
    }

    /// Whether this occupant is the empty one.
    pub fn is_none(&self) -> (r: bool)
        ensures
            r == (*self is Empty),
    {
        matches!(self, Piece::Empty)
    }
}

} // verus!
