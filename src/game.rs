use vstd::prelude::*;
use crate::board::{next_move, other, Board, Player};
use crate::input::{well_formed, InputError, Response};
use crate::rules::{check_filled, check_winner, is_full, lemma_empty_board_no_winner, winner};

verus! {

/// Where a game stands: waiting for the move of a player, or over.
#[derive(Clone, Copy, Debug)]
pub enum GameState {
    AwaitingMove(Board, Player),
    Won(Player, Board),
    Tied(Board),
    Cancelled(Board),
}

/// What became of one line of input, for the player to be told.
#[derive(Debug)]
pub enum Report {
    /// The move was made.
    Placed,
    /// The cell at this row and column, counted from 1, is already taken.
    Occupied(usize, usize),
    /// The line was not a move; the same player is asked again.
    Invalid(InputError),
    /// The player ended the game.
    Stopped,
}

impl GameState {
    /// The board in this state.
    pub open spec fn board(self) -> Board {
        match self {
            GameState::AwaitingMove(b, _) => b,
            GameState::Won(_, b) => b,
            GameState::Tied(b) => b,
            GameState::Cancelled(b) => b,
        }
    }
}

/// The state a board is in with `p` to move: won if a line is held, else tied
/// if the board is full, else waiting for `p`.
pub open spec fn settled(b: Board, p: Player) -> GameState {
    if winner(b) is Some {
        GameState::Won(winner(b)->Some_0, b)
    } else if is_full(b) {
        GameState::Tied(b)
    } else {
        GameState::AwaitingMove(b, p)
    }
}

/// The state after `p`, to move on board `b`, gave `input`.
pub open spec fn outcome(b: Board, p: Player, input: Result<Response, InputError>) -> GameState {
    match input {
        Err(_) => GameState::AwaitingMove(b, p),
        Ok(Response::Stop) => GameState::Cancelled(b),
        Ok(Response::Move(r, c)) => if b.cell(r as int, c as int) is Some {
            GameState::AwaitingMove(b, p)
        } else {
            settled(b.with_cell(r as int, c as int, p), other(p))
        },
    }
}

/// What the player is told after giving `input` on board `b`.
pub open spec fn report_of(b: Board, input: Result<Response, InputError>) -> Report {
    match input {
        Err(e) => Report::Invalid(e),
        Ok(Response::Stop) => Report::Stopped,
        Ok(Response::Move(r, c)) => if b.cell(r as int, c as int) is Some {
            Report::Occupied((r + 1) as usize, (c + 1) as usize)
        } else {
            Report::Placed
        },
    }
}

/// Decides whether the game on `b` is over before `p` is asked to move.
pub fn settle(b: Board, p: Player) -> (s: GameState)
    ensures
        s == settled(b, p),
{
    if let Some(w) = check_winner(&b) {
        return GameState::Won(w, b);
    }
    if check_filled(&b) {
        return GameState::Tied(b);
    }
    GameState::AwaitingMove(b, p)
}

/// The state a game begins in: an empty board with `X` to move.
pub fn start() -> (s: GameState)
    ensures
        s is AwaitingMove,
        s->AwaitingMove_0.is_empty(),
        s->AwaitingMove_1 == Player::X,
{
    let b = Board::new();
    proof {
        lemma_empty_board_no_winner(b);
    }
    assert(!is_full(b)) by {
        assert(b.cell(0, 0) is None);
    }
    settle(b, Player::X)
}

/// One turn: applies the input of `p`, to move on `b`. A move to a free cell
/// takes it and passes the turn; a move to a taken cell or a line that is not
/// a move leaves board and player as they were; a stop ends the game.
pub fn advance(b: Board, p: Player, input: Result<Response, InputError>) -> (r: (GameState, Report))
    requires
        well_formed(input),
    ensures
        r.0 == outcome(b, p, input),
        r.1 == report_of(b, input),
{
    match input {
        Err(e) => (GameState::AwaitingMove(b, p), Report::Invalid(e)),
        Ok(Response::Stop) => (GameState::Cancelled(b), Report::Stopped),
        Ok(Response::Move(r, c)) => {
            if b.positions[r][c].is_some() {
                (GameState::AwaitingMove(b, p), Report::Occupied(r + 1, c + 1))
            } else {
                let mut nb = b;
                nb.positions[r][c] = Some(p);
                assert(nb.positions =~= b.with_cell(r as int, c as int, p).positions);
                (settle(nb, next_move(p)), Report::Placed)
            }
        },
    }
}

/// The state after one input: a game waiting for a move takes it, a game
/// that is over stays as it is.
pub open spec fn step(s: GameState, input: Result<Response, InputError>) -> GameState {
    match s {
        GameState::AwaitingMove(b, p) => outcome(b, p, input),
        _ => s,
    }
}

/// The state after the inputs, in order, starting from `s`.
pub open spec fn run(s: GameState, inputs: Seq<Result<Response, InputError>>) -> GameState
    decreases inputs.len(),
{
    if inputs.len() == 0 {
        s
    } else {
        run(step(s, inputs[0]), inputs.drop_first())
    }
}

/// Every input names a cell on the board, if any.
pub open spec fn all_well_formed(inputs: Seq<Result<Response, InputError>>) -> bool {
    forall|i: int| 0 <= i < inputs.len() ==> well_formed(#[trigger] inputs[i])
}

/// One for a cell taken by `p`, else zero.
pub open spec fn mark_count(c: Option<Player>, p: Player) -> int {
    if c == Some(p) {
        1
    } else {
        0
    }
}

/// How many cells of row `r` player `p` holds.
pub open spec fn row_marks(b: Board, r: int, p: Player) -> int {
    mark_count(b.cell(r, 0), p) + mark_count(b.cell(r, 1), p) + mark_count(b.cell(r, 2), p)
}

/// How many cells of the board player `p` holds.
pub open spec fn marks(b: Board, p: Player) -> int {
    row_marks(b, 0, p) + row_marks(b, 1, p) + row_marks(b, 2, p)
}

/// The turn agrees with the moves made: `X` is to move when both players
/// hold as many cells, `O` when `X` holds one more; a finished game has one
/// of these two counts.
pub open spec fn turn_consistent(s: GameState) -> bool {
    match s {
        GameState::AwaitingMove(b, p) => if p == Player::X {
            marks(b, Player::X) == marks(b, Player::O)
        } else {
            marks(b, Player::X) == marks(b, Player::O) + 1
        },
        _ => marks(s.board(), Player::X) == marks(s.board(), Player::O) || marks(s.board(), Player::X)
            == marks(s.board(), Player::O) + 1,
    }
}

/// Taking the empty cell at (`r`, `c`) changes that cell alone.
proof fn lemma_with_cell(b: Board, r: int, c: int, p: Player)
    requires
        0 <= r < 3,
        0 <= c < 3,
    ensures
        forall|i: int, j: int|
            0 <= i < 3 && 0 <= j < 3 ==> #[trigger] b.with_cell(r, c, p).cell(i, j) == if i == r && j
                == c {
                Some(p)
            } else {
                b.cell(i, j)
            },
{
}

/// A move to an empty cell adds one cell to the mover's count and none to
/// the other player's.
proof fn lemma_marks_after_move(b: Board, r: int, c: int, p: Player)
    requires
        0 <= r < 3,
        0 <= c < 3,
        b.cell(r, c) is None,
    ensures
        marks(b.with_cell(r, c, p), p) == marks(b, p) + 1,
        marks(b.with_cell(r, c, p), other(p)) == marks(b, other(p)),
{
    lemma_with_cell(b, r, c, p);
}

/// One input keeps every taken cell as it was.
proof fn lemma_step_keeps_taken(s: GameState, input: Result<Response, InputError>, r: int, c: int)
    requires
        well_formed(input),
        0 <= r < 3,
        0 <= c < 3,
        s.board().cell(r, c) is Some,
    ensures
        step(s, input).board().cell(r, c) == s.board().cell(r, c),
{
    if let GameState::AwaitingMove(b, p) = s {
        if let Ok(Response::Move(mr, mc)) = input {
            if b.cell(mr as int, mc as int) is None {
                lemma_with_cell(b, mr as int, mc as int, p);
            }
        }
    }
}

/// Once a cell is taken, no input that follows, whether accepted or
/// rejected, changes who holds it.
pub proof fn lemma_taken_cells_stay(
    s: GameState,
    inputs: Seq<Result<Response, InputError>>,
    r: int,
    c: int,
)
    requires
        all_well_formed(inputs),
        0 <= r < 3,
        0 <= c < 3,
        s.board().cell(r, c) is Some,
    ensures
        run(s, inputs).board().cell(r, c) == s.board().cell(r, c),
    decreases inputs.len(),
{
    if inputs.len() > 0 {
        lemma_step_keeps_taken(s, inputs[0], r, c);
        assert(all_well_formed(inputs.drop_first())) by {
            assert forall|i: int| 0 <= i < inputs.drop_first().len() implies well_formed(
                #[trigger] inputs.drop_first()[i],
            ) by {
                assert(well_formed(inputs[i + 1]));
            }
        }
        lemma_taken_cells_stay(step(s, inputs[0]), inputs.drop_first(), r, c);
    }
}

/// One input keeps the turn in step with the moves made.
proof fn lemma_step_turn(s: GameState, input: Result<Response, InputError>)
    requires
        well_formed(input),
        turn_consistent(s),
    ensures
        turn_consistent(step(s, input)),
{
    if let GameState::AwaitingMove(b, p) = s {
        if let Ok(Response::Move(mr, mc)) = input {
            if b.cell(mr as int, mc as int) is None {
                lemma_marks_after_move(b, mr as int, mc as int, p);
            }
        }
    }
}

/// Turns alternate over accepted moves only: from an empty board with `X`
/// to move, after any inputs, `X` is to move exactly when both players have
/// made as many moves, and `O` exactly when `X` has made one more. A move
/// that is made passes the turn; a rejected move, a line that is not a move,
/// and a stop keep it.
pub proof fn lemma_turns_alternate(b: Board, inputs: Seq<Result<Response, InputError>>)
    requires
        b.is_empty(),
        all_well_formed(inputs),
    ensures
        turn_consistent(run(GameState::AwaitingMove(b, Player::X), inputs)),
{
    assert(marks(b, Player::X) == 0 && marks(b, Player::O) == 0) by {
        assert(b.cell(0, 0) is None && b.cell(0, 1) is None && b.cell(0, 2) is None);
        assert(b.cell(1, 0) is None && b.cell(1, 1) is None && b.cell(1, 2) is None);
        assert(b.cell(2, 0) is None && b.cell(2, 1) is None && b.cell(2, 2) is None);
    }
    lemma_run_turn(GameState::AwaitingMove(b, Player::X), inputs);
}

/// Any inputs keep the turn in step with the moves made.
proof fn lemma_run_turn(s: GameState, inputs: Seq<Result<Response, InputError>>)
    requires
        all_well_formed(inputs),
        turn_consistent(s),
    ensures
        turn_consistent(run(s, inputs)),
    decreases inputs.len(),
{
    if inputs.len() > 0 {
        lemma_step_turn(s, inputs[0]);
        assert(all_well_formed(inputs.drop_first())) by {
            assert forall|i: int| 0 <= i < inputs.drop_first().len() implies well_formed(
                #[trigger] inputs.drop_first()[i],
            ) by {
                assert(well_formed(inputs[i + 1]));
            }
        }
        lemma_run_turn(step(s, inputs[0]), inputs.drop_first());
    }
}

} // verus!
