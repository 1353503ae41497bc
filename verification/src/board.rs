//! The game's values: colors, pawns, locations, the board, the dice and
//! the moves a player makes.

use vstd::prelude::*;

verus! {

/// The four players' colors.
#[derive(Clone, Copy, Debug, PartialEq, Eq, Structural)]
pub enum Color {
    Red,
    Blue,
    Yellow,
    Green,
}

/// Where a pawn stands: on a spot of the main ring or of a home row, in
/// its home, or in its nest.
#[derive(Clone, Copy, Debug, PartialEq, Eq, Structural)]
pub enum Loc {
    Spot { index: usize },
    Home,
    Nest,
}

/// The locations of a player's four pawns, by pawn id.
pub type PawnLocs = [Loc; 4];

/// A pawn: its color and its id (0 to 3).
#[derive(Clone, Copy, Debug, PartialEq, Eq, Structural)]
pub struct Pawn {
    pub color: Color,
    pub id: usize,
}

/// The kinds of moves.
#[derive(Clone, Copy, Debug, PartialEq, Eq, Structural)]
pub enum MoveType {
    EnterPiece,
    MoveHome { start: usize, distance: usize },
    MoveMain { start: usize, distance: usize },
}

/// A move of one pawn.
#[derive(Clone, Copy, Debug, PartialEq, Eq, Structural)]
pub struct Move {
    pub m_type: MoveType,
    pub pawn: Pawn,
}

/// The rolls of the dice.
#[derive(Clone, Debug, PartialEq, Eq)]
pub struct Dice {
    pub rolls: Vec<usize>,
}

/// The board: for each color (in the order red, blue, yellow, green) the
/// locations of its pawns.
#[derive(Clone, Copy, Debug, PartialEq, Eq)]
pub struct Board {
    pub positions: [PawnLocs; 4],
}

/// The row of `positions` that holds the pawns of color `c`.
pub open spec fn color_index(c: Color) -> int {
    match c {
        Color::Red => 0,
        Color::Blue => 1,
        Color::Yellow => 2,
        Color::Green => 3,
    }
}

/// The first spot of the home row of color `c`: a pawn `k` spots into its
/// home row stands on spot `home_row(c) + k`.
pub open spec fn home_row(c: Color) -> int {
    match c {
        Color::Red => 100,
        Color::Blue => 200,
        Color::Yellow => 300,
        Color::Green => 400,
    }
}

/// A board as a sequence of four rows of four locations.
pub type BoardView = Seq<Seq<Loc>>;

/// The board of a new game: every pawn in its nest.
pub open spec fn start_board() -> BoardView {
    Seq::new(4, |c: int| Seq::new(4, |i: int| Loc::Nest))
}

/// `b` with pawn `id` of color `c` moved to `l`.
pub open spec fn with_loc(b: BoardView, c: Color, id: int, l: Loc) -> BoardView {
    b.update(color_index(c), b[color_index(c)].update(id, l))
}

/// A well-formed board view: four rows of four locations.
pub open spec fn board_shaped(b: BoardView) -> bool {
    b.len() == 4 && forall|c: int| 0 <= c < 4 ==> #[trigger] b[c].len() == 4
}

impl View for Board {
    type V = BoardView;

    open spec fn view(&self) -> BoardView {
        Seq::new(4, |c: int| self.positions[c]@)
    }
}

impl Board {
    /// The board of a new game, all pawns in their nests.
    pub fn new() -> (b: Board)
        ensures
            b@ == start_board(),
    {
        let row: PawnLocs = [Loc::Nest, Loc::Nest, Loc::Nest, Loc::Nest];
        let b = Board { positions: [row, row, row, row] };
        assert(b@ =~~= start_board());
        b
    }

    /// The board whose rows are the given ones.
    pub fn from_rows(red: PawnLocs, blue: PawnLocs, yellow: PawnLocs, green: PawnLocs) -> (b: Board)
        ensures
            b@ == seq![red@, blue@, yellow@, green@],
    {
        let b = Board { positions: [red, blue, yellow, green] };
        assert(b@ =~= seq![red@, blue@, yellow@, green@]);
        b
    }

    /// The first spot of the home row of `color`.
    pub fn get_home_row(color: &Color) -> (r: usize)
        ensures
            r == home_row(*color),
    {
        match color {
            Color::Red => 100,
            Color::Blue => 200,
            Color::Yellow => 300,
            Color::Green => 400,
        }
    }

    /// The locations of the pawns of `color`.
    pub fn pawn_locs(&self, color: Color) -> (r: PawnLocs)
        ensures
            r@ == self@[color_index(color)],
    {
        match color {
            Color::Red => self.positions[0],
            Color::Blue => self.positions[1],
            Color::Yellow => self.positions[2],
            Color::Green => self.positions[3],
        }
    }

    /// Moves pawn `id` of `color` to `loc`.
    pub fn set_loc(&mut self, color: Color, id: usize, loc: Loc)
        requires
            id < 4,
        ensures
            final(self)@ == with_loc(old(self)@, color, id as int, loc),
    {
        let ci: usize = match color {
            Color::Red => 0,
            Color::Blue => 1,
            Color::Yellow => 2,
            Color::Green => 3,
        };
        let mut row = self.positions[ci];
        row[id] = loc;
        self.positions[ci] = row;
        assert(self@ =~~= with_loc(old(self)@, color, id as int, loc));
    }
}

/// Every board is shaped as four rows of four.
pub proof fn lemma_board_shaped(b: Board)
    ensures
        board_shaped(b@),
{
}

} // verus!
