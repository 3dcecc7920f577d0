use vstd::prelude::*;
use crate::board::{glyph, glyph_of, Board};

verus! {

/// The texts in `parts`, one after another, with `sep` between each two.
pub open spec fn joined(parts: Seq<Seq<char>>, sep: Seq<char>) -> Seq<char>
    decreases parts.len(),
{
    if parts.len() == 0 {
        Seq::empty()
    } else if parts.len() == 1 {
        parts[0]
    } else {
        joined(parts.drop_last(), sep) + sep + parts.last()
    }
}

/// Relies on `itertools::join`: the `Display` text of each item (for a
/// `String`, its own characters), with `sep` written between consecutive
/// items, and the empty string for no items.
#[verifier::external_body]
fn join_strings(parts: &Vec<String>, sep: &str) -> (r: String)
    ensures
        r@ == joined(parts@.map_values(|s: String| s@), sep@),
{
    itertools::join(parts, sep)
}

/// The line between two rows of the board.
pub open spec fn row_separator() -> Seq<char> {
    seq!['\n', '-', '+', '-', '+', '-', '\n']
}

/// One row of the board as text: its three cells, separated by `|`.
pub open spec fn row_text(b: Board, r: int) -> Seq<char> {
    glyph_of(b.cell(r, 0)) + seq!['|'] + glyph_of(b.cell(r, 1)) + seq!['|'] + glyph_of(b.cell(r, 2))
}

/// The board as text: its three rows, separated by `-+-+-` lines.
pub open spec fn rendered(b: Board) -> Seq<char> {
    row_text(b, 0) + row_separator() + row_text(b, 1) + row_separator() + row_text(b, 2)
}

/// Three texts, joined by `sep`.
proof fn lemma_joined_three(a: Seq<char>, b: Seq<char>, c: Seq<char>, sep: Seq<char>)
    ensures
        joined(seq![a, b, c], sep) == a + sep + b + sep + c,
{
    reveal_with_fuel(joined, 3);
    assert(seq![a, b, c].drop_last() =~= seq![a, b]);
    assert(seq![a, b].drop_last() =~= seq![a]);
}

/// One row of the board as text.
fn render_row(b: &Board, r: usize) -> (t: String)
    requires
        r < 3,
    ensures
        t@ == row_text(*b, r as int),
{
    let cells = vec![glyph(b.positions[r][0]), glyph(b.positions[r][1]), glyph(b.positions[r][2])];
    proof {
        reveal_strlit("|");
        assert("|"@ =~= seq!['|']);
        lemma_joined_three(cells@[0]@, cells@[1]@, cells@[2]@, seq!['|']);
        assert(cells@.map_values(|s: String| s@) =~= seq![cells@[0]@, cells@[1]@, cells@[2]@]);
    }
    join_strings(&cells, "|")
}

/// The board as text: three rows of three cells (` `, `X` or `O`) separated
/// by `|`, with a `-+-+-` line between rows.
pub fn render(b: &Board) -> (t: String)
    ensures
        t@ == rendered(*b),
{
    let rows = vec![render_row(b, 0), render_row(b, 1), render_row(b, 2)];
    proof {
        reveal_strlit("\n-+-+-\n");
        assert("\n-+-+-\n"@ =~= row_separator());
        lemma_joined_three(rows@[0]@, rows@[1]@, rows@[2]@, row_separator());
        assert(rows@.map_values(|s: String| s@) =~= seq![rows@[0]@, rows@[1]@, rows@[2]@]);
    }
    join_strings(&rows, "\n-+-+-\n")
}

} // verus!
