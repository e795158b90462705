use vstd::prelude::*;

verus! {

/// Number of rows (and of columns) of the board.
pub const BOARD_SIZE: usize = 4;

/// Number of board squares.
pub const SQUARE_COUNT: usize = 16;

/// Number of distinct piece kinds, and so of slots in each color's hand.
pub const KIND_COUNT: usize = 4;

/// The two players.
#[derive(PartialEq, Eq, Structural, Clone, Copy, Debug)]
pub enum Color {
    Black,
    White,
}

impl Color {
    /// Index of the color in the fixed lookup tables: Black first.
    pub open spec fn spec_index(self) -> int {
        match self {
            Color::Black => 0,
            Color::White => 1,
        }
    }

    pub fn index(self) -> (i: usize)
        ensures
            i == self.spec_index(),
    {
        match self {
            Color::Black => 0,
            Color::White => 1,
        }
    }
}

/// Piece sizes, smallest to largest.
#[derive(PartialEq, Eq, Structural, Clone, Copy, Debug)]
pub enum PieceKind {
    Tiny,
    Small,
    Medium,
    Big,
}

impl PieceKind {
    /// Index of the kind in the fixed lookup tables, smallest first.
    pub open spec fn spec_index(self) -> int {
        match self {
            PieceKind::Tiny => 0,
            PieceKind::Small => 1,
            PieceKind::Medium => 2,
            PieceKind::Big => 3,
        }
    }

    pub fn index(self) -> (i: usize)
        ensures
            i == self.spec_index(),
    {
        match self {
            PieceKind::Tiny => 0,
            PieceKind::Small => 1,
            PieceKind::Medium => 2,
            PieceKind::Big => 3,
        }
    }
}

/// An immutable piece value: its owner and its size.
#[derive(PartialEq, Eq, Structural, Clone, Copy, Debug)]
pub struct Piece {
    pub color: Color,
    pub kind: PieceKind,
}

/// One of the sixteen board cells, 0-indexed column and row.
#[derive(PartialEq, Eq, Structural, Clone, Copy, Debug)]
pub struct Square {
    pub col: u8,
    pub row: u8,
}

impl Square {
    pub open spec fn wf(self) -> bool {
        self.col < BOARD_SIZE && self.row < BOARD_SIZE
    }

    /// Position of the square in row-major board vectors.
    pub open spec fn spec_idx(self) -> int {
        self.row * BOARD_SIZE + self.col
    }

    pub fn from_pos(col: usize, row: usize) -> (sq: Square)
        requires
            col < BOARD_SIZE,
            row < BOARD_SIZE,
        ensures
            sq.wf(),
            sq.col == col,
            sq.row == row,
    {
        Square { col: col as u8, row: row as u8 }
    }

    pub fn idx(self) -> (i: usize)
        requires
            self.wf(),
        ensures
            i == self.spec_idx(),
            i < SQUARE_COUNT,
    {
        self.row as usize * BOARD_SIZE + self.col as usize
    }
}

/// Where a piece currently sits: on a board square, or in one color's
/// hand at a given slot.
#[derive(PartialEq, Eq, Structural, Clone, Copy, Debug)]
pub enum Location {
    OnBoard(Square),
    InHand(Color, usize),
}

impl Location {
    pub open spec fn wf(self) -> bool {
        match self {
            Location::OnBoard(sq) => sq.wf(),
            Location::InHand(_, slot) => slot < KIND_COUNT,
        }
    }
}

/// A piece together with the place it was selected or clicked at.
#[derive(PartialEq, Eq, Structural, Clone, Copy, Debug)]
pub struct LocatedPiece {
    pub piece: Piece,
    pub location: Location,
}

impl LocatedPiece {
    pub open spec fn wf(self) -> bool {
        self.location.wf()
    }
}

/// The single piece of interest of the view: none, or one selected piece.
#[derive(PartialEq, Eq, Structural, Clone, Copy, Debug)]
pub enum SelectionState {
    Idle,
    Selected(LocatedPiece),
}

impl SelectionState {
    pub open spec fn wf(self) -> bool {
        match self {
            SelectionState::Idle => true,
            SelectionState::Selected(lp) => lp.wf(),
        }
    }
}

/// The single activated region of a frame's click: nothing (the click, if
/// any, lay outside every region), the background, a bare board square, or
/// the topmost piece of a board stack or hand slot.
#[derive(PartialEq, Eq, Structural, Clone, Copy, Debug)]
pub enum Hit {
    NoHit,
    Background,
    BoardSquare(Square),
    BoardPiece(LocatedPiece),
    HandPiece(LocatedPiece),
}

impl Hit {
    /// A piece hit carries the location of the region it was found at: a
    /// board piece sits on a square, a hand piece in a hand slot.
    pub open spec fn wf(self) -> bool {
        match self {
            Hit::NoHit => true,
            Hit::Background => true,
            Hit::BoardSquare(sq) => sq.wf(),
            Hit::BoardPiece(lp) => lp.wf() && lp.location is OnBoard,
            Hit::HandPiece(lp) => lp.wf() && lp.location is InHand,
        }
    }
}

/// A hit that reports what the snapshot really shows: a piece hit names
/// the topmost piece of the stack or slot it landed on. The catalog builder
/// only makes piece regions for visible topmost pieces, so every resolved
/// hit satisfies this.
pub open spec fn hit_consistent(snap: Snapshot, hit: Hit) -> bool {
    match hit {
        Hit::NoHit => true,
        Hit::Background => true,
        Hit::BoardSquare(sq) => sq.wf(),
        Hit::BoardPiece(lp) => match lp.location {
            Location::OnBoard(sq) => sq.wf() && snap.spec_top_at(sq) == Some(lp.piece),
            Location::InHand(_, _) => false,
        },
        Hit::HandPiece(lp) => match lp.location {
            Location::InHand(c, j) => 0 <= j < KIND_COUNT && snap.spec_hand_tops(c)[j as int]
                == Some(lp.piece),
            Location::OnBoard(_) => false,
        },
    }
}

/// A command for the rules engine, keyed by the origin of the selected
/// piece: a move of a board piece, or a placement out of the hand.
#[derive(PartialEq, Eq, Structural, Clone, Copy, Debug)]
pub enum Action {
    Move { from: Square, to: Square },
    PlaceFromHand { index: usize, to: Square },
}

/// What the rules engine reports of the session: still running, or won.
#[derive(PartialEq, Eq, Structural, Clone, Copy, Debug)]
pub enum GameStatus {
    Ongoing,
    Won(Color),
}

/// A read-only snapshot of the rules engine's answers for one frame: the
/// topmost piece of every board square and hand slot, whose turn it is,
/// and whether the game is still running.
#[derive(PartialEq, Eq, Clone, Debug)]
pub struct Snapshot {
    /// Topmost piece of each board square, row-major, `None` where empty.
    pub board_tops: Vec<Option<Piece>>,
    /// Topmost piece of each of Black's hand slots.
    pub black_hand_tops: Vec<Option<Piece>>,
    /// Topmost piece of each of White's hand slots.
    pub white_hand_tops: Vec<Option<Piece>>,
    /// The color currently permitted to act.
    pub turn: Color,
    /// Whether the session is still running.
    pub status: GameStatus,
}

impl Snapshot {
    pub open spec fn wf(self) -> bool {
        &&& self.board_tops@.len() == SQUARE_COUNT
        &&& self.black_hand_tops@.len() == KIND_COUNT
        &&& self.white_hand_tops@.len() == KIND_COUNT
    }

    pub open spec fn spec_top_at(self, sq: Square) -> Option<Piece> {
        self.board_tops@[sq.spec_idx()]
    }

    pub open spec fn spec_hand_tops(self, c: Color) -> Seq<Option<Piece>> {
        match c {
            Color::Black => self.black_hand_tops@,
            Color::White => self.white_hand_tops@,
        }
    }

    /// Topmost piece of the given board square.
    pub fn top_at(&self, sq: Square) -> (r: Option<Piece>)
        requires
            self.wf(),
            sq.wf(),
        ensures
            r == self.spec_top_at(sq),
    {
        self.board_tops[sq.idx()]
    }

    /// Topmost piece of the given hand slot of the given color.
    pub fn hand_top(&self, c: Color, slot: usize) -> (r: Option<Piece>)
        requires
            self.wf(),
            slot < KIND_COUNT,
        ensures
            r == self.spec_hand_tops(c)[slot as int],
    {
        match c {
            Color::Black => self.black_hand_tops[slot],
            Color::White => self.white_hand_tops[slot],
        }
    }
}

} // verus!
