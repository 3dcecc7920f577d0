use vstd::prelude::*;
use vstd::string::StringExecFns;
use vstd::array::spec_array_update;

verus! {

/// One of the two players. `X` moves first.
#[derive(Clone, Copy, PartialEq, Eq, Structural, Debug)]
pub enum Player {
    X,
    O,
}

/// The player whose turn follows `p`'s.
pub open spec fn other(p: Player) -> Player {
    match p {
        Player::X => Player::O,
        Player::O => Player::X,
    }
}

/// The player who moves after `p`.
pub fn next_move(p: Player) -> (r: Player)
    ensures
        r == other(p),
        r != p,
{
    match p {
        Player::X => Player::O,
        Player::O => Player::X,
    }
}

/// The character shown for a cell: a space when empty, else its player's mark.
pub open spec fn glyph_of(c: Option<Player>) -> Seq<char> {
    match c {
        None => seq![' '],
        Some(Player::X) => seq!['X'],
        Some(Player::O) => seq!['O'],
    }
}

impl Player {
    /// The player's mark, `X` or `O`.
    pub fn symbol(&self) -> (r: String)
        ensures
            r@ == glyph_of(Some(*self)),
    {
        glyph(Some(*self))
    }
}

/// The text shown for a cell.
pub fn glyph(c: Option<Player>) -> (r: String)
    ensures
        r@ == glyph_of(c),
{
    proof {
        reveal_strlit(" ");
        reveal_strlit("X");
        reveal_strlit("O");
    }
    let t = match c {
        None => " ",
        Some(Player::X) => "X",
        Some(Player::O) => "O",
    };
    assert(t@ =~= glyph_of(c));
    String::from_str(t)
}

/// A 3x3 grid, row-major; a cell holds the player who took it, if any.
#[derive(Clone, Copy, Debug)]
pub struct Board {
    pub positions: [[Option<Player>; 3]; 3],
}

impl Board {
    /// The occupant of the cell at row `r`, column `c`.
    pub open spec fn cell(self, r: int, c: int) -> Option<Player> {
        self.positions[r][c]
    }

    /// The board with the cell at row `r`, column `c` taken by `p`.
    pub open spec fn with_cell(self, r: int, c: int, p: Player) -> Board {
        Board {
            positions: spec_array_update(
                self.positions,
                r,
                spec_array_update(self.positions[r], c, Some(p)),
            ),
        }
    }

    /// A board on which no cell is taken.
    pub open spec fn is_empty(self) -> bool {
        forall|r: int, c: int| 0 <= r < 3 && 0 <= c < 3 ==> #[trigger] self.cell(r, c) is None
    }

    /// A fresh board with every cell empty.
    pub fn new() -> (b: Board)
        ensures
            b.is_empty(),
    {
        Board { positions: [[None; 3]; 3] }
    }
}

} // verus!
