use vstd::prelude::*;
use crate::board::{other, Board, Player};

verus! {

/// The player holding all three of the given cells, if one does.
pub open spec fn owner_of(a: Option<Player>, b: Option<Player>, c: Option<Player>) -> Option<Player> {
    match (a, b, c) {
        (Some(x), Some(y), Some(z)) => if x == y && y == z {
            Some(x)
        } else {
            None
        },
        _ => None,
    }
}

/// The `i`-th cell, as (row, column), of line `k` in the fixed order of lines:
/// the rows 0 to 2, then the columns 0 to 2, then the main diagonal, from the
/// top left, and the anti-diagonal, from the bottom left.
pub open spec fn line_cell(k: int, i: int) -> (int, int) {
    if k < 3 {
        (k, i)
    } else if k < 6 {
        (i, k - 3)
    } else if k == 6 {
        (i, i)
    } else {
        (2 - i, i)
    }
}

/// The player holding every cell of line `k`, if one does.
pub open spec fn line_owner(b: Board, k: int) -> Option<Player> {
    owner_of(
        b.cell(line_cell(k, 0).0, line_cell(k, 0).1),
        b.cell(line_cell(k, 1).0, line_cell(k, 1).1),
        b.cell(line_cell(k, 2).0, line_cell(k, 2).1),
    )
}

/// The owner of the first line, from line `k` on, that one player holds.
pub open spec fn winner_from(b: Board, k: int) -> Option<Player>
    decreases 8 - k,
{
    if k >= 8 {
        None
    } else if line_owner(b, k) is Some {
        line_owner(b, k)
    } else {
        winner_from(b, k + 1)
    }
}

/// The winner of a board: the owner of the first line in the fixed order that
/// one player holds entirely.
pub open spec fn winner(b: Board) -> Option<Player> {
    winner_from(b, 0)
}

/// Every cell of the board is taken.
pub open spec fn is_full(b: Board) -> bool {
    forall|r: int, c: int| 0 <= r < 3 && 0 <= c < 3 ==> #[trigger] b.cell(r, c) is Some
}

/// The search from line `k` on finds a winner exactly when some line from
/// `k` on is held, and the winner it finds holds one of those lines.
proof fn lemma_winner_from(b: Board, k: int)
    requires
        0 <= k <= 8,
    ensures
        winner_from(b, k) is Some <==> exists|j: int| k <= j < 8 && #[trigger] line_owner(b, j) is Some,
        winner_from(b, k) is Some ==> exists|j: int|
            k <= j < 8 && #[trigger] line_owner(b, j) == winner_from(b, k),
    decreases 8 - k,
{
    if k < 8 {
        lemma_winner_from(b, k + 1);
        if line_owner(b, k) is Some {
            assert(line_owner(b, k) == winner_from(b, k));
        }
    }
}

/// As soon as one of the eight lines is held entirely by player `p`, the
/// board has a winner, and that winner is `p` unless the other player also
/// holds a line.
pub proof fn lemma_full_line_wins(b: Board, k: int, p: Player)
    requires
        0 <= k < 8,
        line_owner(b, k) == Some(p),
    ensures
        winner(b) is Some,
        (forall|j: int| 0 <= j < 8 ==> #[trigger] line_owner(b, j) != Some(other(p))) ==> winner(b)
            == Some(p),
{
    lemma_winner_from(b, 0);
    if winner(b) is Some && winner(b) != Some(p) {
        let j = choose|j: int| 0 <= j < 8 && #[trigger] line_owner(b, j) == winner(b);
        assert(line_owner(b, j) == Some(other(p)));
    }
}

/// A board on which no line is held by one player, an empty board among
/// them, has no winner.
pub proof fn lemma_no_full_line_no_winner(b: Board)
    requires
        forall|k: int| 0 <= k < 8 ==> #[trigger] line_owner(b, k) is None,
    ensures
        winner(b) is None,
{
    lemma_winner_from(b, 0);
}

/// An empty board has no winner.
pub proof fn lemma_empty_board_no_winner(b: Board)
    requires
        b.is_empty(),
    ensures
        winner(b) is None,
{
    assert forall|k: int| 0 <= k < 8 implies #[trigger] line_owner(b, k) is None by {
        assert(b.cell(line_cell(k, 0).0, line_cell(k, 0).1) is None);
    }
    lemma_no_full_line_no_winner(b);
}

/// The common owner of three cells, or `None` when one is empty or two differ.
pub fn full_match(p1: Option<Player>, p2: Option<Player>, p3: Option<Player>) -> (r: Option<Player>)
    ensures
        r == owner_of(p1, p2, p3),
{
    match (p1, p2, p3) {
        (Some(a), Some(b), Some(c)) => {
            if a == b && b == c {
                Some(a)
            } else {
                None
            }
        },
        _ => None,
    }
}

/// The winner of the board: the owner of the first of the eight lines, in the
/// order rows, columns, main diagonal, anti-diagonal, held by one player.
pub fn check_winner(b: &Board) -> (r: Option<Player>)
    ensures
        r == winner(*b),
{
    let p = &b.positions;
    proof {
        reveal_with_fuel(winner_from, 9);
    }
    if let Some(s) = full_match(p[0][0], p[0][1], p[0][2]) {
        return Some(s);
    }
    if let Some(s) = full_match(p[1][0], p[1][1], p[1][2]) {
        return Some(s);
    }
    if let Some(s) = full_match(p[2][0], p[2][1], p[2][2]) {
        return Some(s);
    }
    if let Some(s) = full_match(p[0][0], p[1][0], p[2][0]) {
        return Some(s);
    }
    if let Some(s) = full_match(p[0][1], p[1][1], p[2][1]) {
        return Some(s);
    }
    if let Some(s) = full_match(p[0][2], p[1][2], p[2][2]) {
        return Some(s);
    }
    if let Some(s) = full_match(p[0][0], p[1][1], p[2][2]) {
        return Some(s);
    }
    if let Some(s) = full_match(p[2][0], p[1][1], p[0][2]) {
        return Some(s);
    }
    None
}

/// Whether every cell of the board is taken.
pub fn check_filled(b: &Board) -> (r: bool)
    ensures
        r == is_full(*b),
{
    let mut i: usize = 0;
    while i < 3
        invariant
            i <= 3,
            forall|r: int, c: int| 0 <= r < i && 0 <= c < 3 ==> #[trigger] b.cell(r, c) is Some,
        decreases 3 - i,
    {
        let mut j: usize = 0;
        while j < 3
            invariant
                i < 3,
                j <= 3,
                forall|r: int, c: int| 0 <= r < i && 0 <= c < 3 ==> #[trigger] b.cell(r, c) is Some,
                forall|c: int| 0 <= c < j ==> #[trigger] b.cell(i as int, c) is Some,
            decreases 3 - j,
        {
            if b.positions[i][j].is_none() {
                assert(b.cell(i as int, j as int) is None);
                return false;
            }
            j = j + 1;
        }
        i = i + 1;
    }
    true
}

} // verus!
