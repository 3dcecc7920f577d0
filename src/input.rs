use vstd::prelude::*;

verus! {

#[verifier::external_type_specification]
#[verifier::external_body]
pub struct ExParseIntError(std::num::ParseIntError);

/// What a line typed by a player asks for: a move to (row, column), both
/// counted from 0, or the end of the game.
#[derive(Clone, Copy, PartialEq, Eq, Structural, Debug)]
pub enum Response {
    Move(usize, usize),
    Stop,
}

/// Why a typed line is not a move.
#[derive(Debug)]
pub enum InputError {
    /// A coordinate is not a number; holds the error of the number's parse.
    Number(std::num::ParseIntError),
    /// The line has no comma between a row and a column.
    MissingComma,
    /// A coordinate is a number outside 1 to 3.
    OutOfRange,
}

impl Response {
    /// A move names a cell of the board.
    pub open spec fn on_board(self) -> bool {
        match self {
            Response::Move(r, c) => r < 3 && c < 3,
            Response::Stop => true,
        }
    }
}

/// A parsed line that names no cell off the board.
pub open spec fn well_formed(input: Result<Response, InputError>) -> bool {
    match input {
        Ok(m) => m.on_board(),
        Err(_) => true,
    }
}

/// The digits of a decimal numeral, read as a number.
pub open spec fn digits_value(d: Seq<char>) -> int
    decreases d.len(),
{
    if d.len() == 0 {
        0
    } else {
        digits_value(d.drop_last()) * 10 + (d.last() as int - '0' as int)
    }
}

/// The number that `t` writes as an optional `+` followed by one or more
/// decimal digits, when it fits in a `usize`.
pub open spec fn usize_value(t: Seq<char>) -> Option<int> {
    let d = if t.len() > 0 && t[0] == '+' {
        t.drop_first()
    } else {
        t
    };
    if d.len() > 0 && (forall|i: int| 0 <= i < d.len() ==> '0' <= #[trigger] d[i] <= '9')
        && digits_value(d) <= usize::MAX {
        Some(digits_value(d))
    } else {
        None
    }
}

/// Relies on `str::parse::<usize>` (`usize::from_str`, radix 10), documented
/// to accept exactly an optional `+` followed by decimal digits whose value
/// fits, and to fail on anything else.
#[verifier::external_body]
fn parse_usize(t: &str) -> (r: Result<usize, std::num::ParseIntError>)
    ensures
        r is Ok <==> usize_value(t@) is Some,
        r is Ok ==> usize_value(t@) == Some(r->Ok_0 as int),
{
    t.parse::<usize>()
}

/// `k` is the position of the first comma in `s`.
pub open spec fn first_comma(s: Seq<char>, k: int) -> bool {
    0 <= k < s.len() && s[k] == ',' && forall|i: int| 0 <= i < k ==> s[i] != ','
}

/// `r` is what a row text and a column text, each written from 1, give:
/// both coordinates, counted from 0, when both are numbers from 1 to 3; an
/// out-of-range error when both are numbers and one is not; else the error
/// of a number's parse.
pub open spec fn pair_result(row: Seq<char>, col: Seq<char>, r: Result<(usize, usize), InputError>) -> bool {
    match (usize_value(row), usize_value(col)) {
        (Some(a), Some(b)) => if 1 <= a <= 3 && 1 <= b <= 3 {
            r == Ok::<(usize, usize), InputError>(((a - 1) as usize, (b - 1) as usize))
        } else {
            r is Err && r->Err_0 is OutOfRange
        },
        _ => r is Err && r->Err_0 is Number,
    }
}

/// `r` is what the text `s`, a row and a column split at the first comma,
/// gives; without a comma it is the missing-comma error.
pub open spec fn coord_result(s: Seq<char>, r: Result<(usize, usize), InputError>) -> bool {
    if s.contains(',') {
        forall|k: int| first_comma(s, k) ==> pair_result(s.subrange(0, k), s.subrange(k + 1, s.len() as int), r)
    } else {
        r is Err && r->Err_0 is MissingComma
    }
}

/// The position of the first comma of `s`, if it holds one.
fn find_comma(s: &str) -> (r: Option<usize>)
    ensures
        match r {
            Some(k) => first_comma(s@, k as int),
            None => !s@.contains(','),
        },
{
    let n = s.unicode_len();
    let mut i: usize = 0;
    while i < n
        invariant
            n == s@.len(),
            i <= n,
            forall|j: int| 0 <= j < i ==> s@[j] != ',',
        decreases n - i,
    {
        if s.get_char(i) == ',' {
            return Some(i);
        }
        i = i + 1;
    }
    None
}

/// Reads a move written as `row,col`, both counted from 1, into the cell it
/// names, counted from 0.
pub fn get_coord(s: &str) -> (r: Result<(usize, usize), InputError>)
    ensures
        coord_result(s@, r),
        r is Ok ==> r->Ok_0.0 < 3 && r->Ok_0.1 < 3,
{
    match find_comma(s) {
        None => Err(InputError::MissingComma),
        Some(k) => {
            let n = s.unicode_len();
            let row_text = s.substring_char(0, k);
            let col_text = s.substring_char(k + 1, n);
            let row = match parse_usize(row_text) {
                Ok(v) => v,
                Err(e) => {
                    return Err(InputError::Number(e));
                },
            };
            let col = match parse_usize(col_text) {
                Ok(v) => v,
                Err(e) => {
                    return Err(InputError::Number(e));
                },
            };
            if 1 <= row && row <= 3 && 1 <= col && col <= 3 {
                Ok((row - 1, col - 1))
            } else {
                Err(InputError::OutOfRange)
            }
        },
    }
}

/// The line `s` without one trailing line feed, then without one trailing
/// carriage return.
pub open spec fn trimmed(s: Seq<char>) -> Seq<char> {
    let t = if s.len() > 0 && s.last() == '\n' {
        s.drop_last()
    } else {
        s
    };
    if t.len() > 0 && t.last() == '\r' {
        t.drop_last()
    } else {
        t
    }
}

/// The word that ends a game.
pub open spec fn stop_word() -> Seq<char> {
    seq!['s', 't', 'o', 'p']
}

/// `r` is what the typed line `s` asks for: once its line ending is cut off,
/// the stop word ends the game, and anything else is read as a move.
pub open spec fn response_result(s: Seq<char>, r: Result<Response, InputError>) -> bool {
    let t = trimmed(s);
    if t == stop_word() {
        r == Ok::<Response, InputError>(Response::Stop)
    } else {
        match r {
            Ok(Response::Move(a, b)) => coord_result(t, Ok((a, b))),
            Ok(Response::Stop) => false,
            Err(e) => coord_result(t, Err(e)),
        }
    }
}

/// Cuts one trailing line feed, then one trailing carriage return, off `s`.
pub fn trim_line(s: &str) -> (r: &str)
    ensures
        r@ == trimmed(s@),
{
    let mut t = s;
    let n = t.unicode_len();
    if n > 0 && t.get_char(n - 1) == '\n' {
        t = t.substring_char(0, n - 1);
    }
    let m = t.unicode_len();
    if m > 0 && t.get_char(m - 1) == '\r' {
        t = t.substring_char(0, m - 1);
    }
    proof {
        assert(s@.subrange(0, s@.len() - 1) == s@.drop_last());
    }
    t
}

/// Whether `t` is the stop word.
fn is_stop(t: &str) -> (r: bool)
    ensures
        r == (t@ == stop_word()),
{
    if t.unicode_len() != 4 {
        return false;
    }
    let r = t.get_char(0) == 's' && t.get_char(1) == 't' && t.get_char(2) == 'o' && t.get_char(3) == 'p';
    proof {
        if r {
            assert(t@ =~= stop_word());
        }
    }
    r
}

/// Reads one typed line: the stop word, or a move as `row,col` counted from 1.
pub fn parse_response(s: &str) -> (r: Result<Response, InputError>)
    ensures
        response_result(s@, r),
        well_formed(r),
{
    let t = trim_line(s);
    if is_stop(t) {
        return Ok(Response::Stop);
    }
    match get_coord(t) {
        Ok((a, b)) => Ok(Response::Move(a, b)),
        Err(e) => Err(e),
    }
}

} // verus!
