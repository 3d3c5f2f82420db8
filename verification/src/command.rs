//! The command interpreter: turns one cleaned line of terminal input into a
//! structured command — undo, a placement at a coordinate, or invalid.
//!
//! A line is the word "undo", or two whitespace-separated tokens each naming
//! a coordinate in `[0, 2]`; everything else is invalid. A coordinate token
//! is an optional leading `+` followed by one or more decimal digits whose
//! value is below 3. Whitespace here means the ASCII whitespace characters.

use vstd::prelude::*;

verus! {

/// What one line of input asks for.
#[derive(Clone, Copy, Debug, PartialEq, Eq, Structural)]
pub enum Command {
    /// The exact word "undo": take back the most recent placement.
    Undo,
    /// Place at `(row, col)`; both already checked to lie in `[0, 2]`.
    PlaceAt(usize, usize),
    /// Anything else: wrong token count, a non-numeric token, or an
    /// out-of-range numeral.
    Invalid,
}

/// The ASCII whitespace characters, which separate the two coordinate
/// tokens.
pub open spec fn is_space_char(c: char) -> bool {
    c == ' ' || c == '\t' || c == '\n' || c == '\r' || c == '\x0b' || c == '\x0c'
}

/// A decimal digit.
pub open spec fn is_digit_char(c: char) -> bool {
    48 <= c as u32 <= 57
}

/// The maximal whitespace-free tokens of `s`, in order.
pub open spec fn tokens_of(s: Seq<char>) -> Seq<Seq<char>>
    decreases s.len(),
{
    if s.len() == 0 {
        Seq::empty()
    } else {
        let prefix = s.drop_last();
        let c = s.last();
        if is_space_char(c) {
            tokens_of(prefix)
        } else if prefix.len() == 0 || is_space_char(prefix.last()) {
            tokens_of(prefix).push(seq![c])
        } else {
            let t = tokens_of(prefix);
            t.update(t.len() - 1, t.last().push(c))
        }
    }
}

/// The value of a string of decimal digits, most significant first.
pub open spec fn digits_val(t: Seq<char>) -> int
    decreases t.len(),
{
    if t.len() == 0 {
        0
    } else {
        digits_val(t.drop_last()) * 10 + (t.last() as u32 - 48)
    }
}

/// Every character of `t` is a decimal digit.
pub open spec fn all_digits(t: Seq<char>) -> bool {
    forall|i: int| 0 <= i < t.len() ==> is_digit_char(t[i])
}

/// `t` without an optional single leading `+` sign.
pub open spec fn strip_plus(t: Seq<char>) -> Seq<char> {
    if t.len() > 0 && t[0] == '+' {
        t.drop_first()
    } else {
        t
    }
}

/// The token names a coordinate on the grid: after an optional leading `+`,
/// one or more digits whose value is strictly below 3.
pub open spec fn coord_token_ok(t: Seq<char>) -> bool {
    let d = strip_plus(t);
    d.len() > 0 && all_digits(d) && digits_val(d) < 3
}

/// The coordinate a valid token names.
pub open spec fn coord_val(t: Seq<char>) -> int {
    digits_val(strip_plus(t))
}

/// What `parse_move` returns: the two coordinates when the line splits into
/// exactly two valid coordinate tokens, and nothing otherwise.
pub open spec fn parse_move_spec(s: Seq<char>) -> Option<(usize, usize)> {
    let ts = tokens_of(s);
    if ts.len() == 2 && coord_token_ok(ts[0]) && coord_token_ok(ts[1]) {
        Some((coord_val(ts[0]) as usize, coord_val(ts[1]) as usize))
    } else {
        None
    }
}

/// What `interpret` returns: the word "undo" asks for an undo, a line that
/// parses as two coordinates asks for that placement, and everything else is
/// invalid.
pub open spec fn interpret_spec(s: Seq<char>) -> Command {
    if s == "undo"@ {
        Command::Undo
    } else {
        match parse_move_spec(s) {
            Some((row, col)) => Command::PlaceAt(row, col),
            None => Command::Invalid,
        }
    }
}

/// A string that ends in a non-space character has a token under way: the
/// token list is non-empty.
proof fn lemma_tokens_nonempty(s: Seq<char>)
    requires
        s.len() > 0,
        !is_space_char(s.last()),
    ensures
        tokens_of(s).len() > 0,
    decreases s.len(),
{
    let prefix = s.drop_last();
    if prefix.len() == 0 || is_space_char(prefix.last()) {
    } else {
        lemma_tokens_nonempty(prefix);
    }
}

fn is_space(c: char) -> (r: bool)
    ensures
        r == is_space_char(c),
{
    c == ' ' || c == '\t' || c == '\n' || c == '\r' || c == '\x0b' || c == '\x0c'
}

/// Splits `line` into its maximal whitespace-free tokens, in order.
fn tokenize(line: &str) -> (tokens: Vec<Vec<char>>)
    ensures
        tokens@.len() == tokens_of(line@).len(),
        forall|j: int| 0 <= j < tokens@.len() ==> tokens@[j]@ == tokens_of(line@)[j],
{
    let n = line.unicode_len();
    let mut tokens: Vec<Vec<char>> = Vec::new();
    let mut prev_space = true;
    let mut i: usize = 0;
    while i < n
        invariant
            n == line@.len(),
            i <= n,
            prev_space == (i == 0 || is_space_char(line@[i - 1])),
            tokens@.len() == tokens_of(line@.subrange(0, i as int)).len(),
            forall|j: int|
                0 <= j < tokens@.len() ==> tokens@[j]@ == tokens_of(line@.subrange(0, i as int))[j],
        decreases n - i,
    {
        let ghost pre = line@.subrange(0, i as int);
        let ghost pre2 = line@.subrange(0, i + 1 as int);
        proof {
            assert(pre2.drop_last() =~= pre);
            assert(pre2.last() == line@[i as int]);
        }
        let c = line.get_char(i);
        if is_space(c) {
            prev_space = true;
        } else {
            if prev_space {
                let mut t: Vec<char> = Vec::new();
                t.push(c);
                tokens.push(t);
            } else {
                proof {
                    lemma_tokens_nonempty(pre);
                }
                let mut t = tokens.pop().unwrap();
                t.push(c);
                tokens.push(t);
            }
            prev_space = false;
        }
        i += 1;
    }
    proof {
        assert(line@.subrange(0, n as int) =~= line@);
    }
    tokens
}

/// Parses one token as a coordinate: an optional leading `+`, then digits
/// with value below 3. Returns the value, or `None` exactly when the token
/// is not a valid coordinate token.
fn parse_coord(t: &Vec<char>) -> (r: Option<usize>)
    ensures
        match r {
            Some(v) => coord_token_ok(t@) && v as int == coord_val(t@),
            None => !coord_token_ok(t@),
        },
{
    let mut start: usize = 0;
    if t.len() > 0 && t[0] == '+' {
        start = 1;
    }
    let ghost d = strip_plus(t@);
    proof {
        assert(d =~= t@.subrange(start as int, t@.len() as int));
    }
    if t.len() == start {
        return None;
    }
    // `val` tracks the digits' value, saturated at 3: only "below 3" matters.
    let mut val: usize = 0;
    let mut i: usize = start;
    while i < t.len()
        invariant
            start <= i <= t@.len(),
            d == strip_plus(t@),
            d == t@.subrange(start as int, t@.len() as int),
            forall|j: int| start <= j < i ==> is_digit_char(t@[j]),
            val == if digits_val(t@.subrange(start as int, i as int)) < 3 {
                digits_val(t@.subrange(start as int, i as int))
            } else {
                3int
            },
        decreases t@.len() - i,
    {
        let ghost dpre = t@.subrange(start as int, i as int);
        let ghost dpre2 = t@.subrange(start as int, i + 1 as int);
        proof {
            assert(dpre2.drop_last() =~= dpre);
            assert(dpre2.last() == t@[i as int]);
        }
        let c = t[i];
        let cv = c as u32;
        if cv < 48 || cv > 57 {
            proof {
                assert(d[i - start] == t@[i as int]);
                assert(!is_digit_char(d[i - start]));
                assert(!all_digits(d));
            }
            return None;
        }
        let digit = (cv - 48) as usize;
        let mut nv = val * 10 + digit;
        if nv > 3 {
            nv = 3;
        }
        val = nv;
        i += 1;
    }
    if val < 3 {
        Some(val)
    } else {
        None
    }
}

/// Parses a cleaned input line as a placement: exactly two
/// whitespace-separated tokens, each a coordinate in `[0, 2]`. Returns
/// `(row, col)`, or `None` exactly when the line is not such a pair.
pub fn parse_move(command: &str) -> (r: Option<(usize, usize)>)
    ensures
        r == parse_move_spec(command@),
{
    let tokens = tokenize(command);
    if tokens.len() != 2 {
        return None;
    }
    let row = parse_coord(&tokens[0]);
    let col = parse_coord(&tokens[1]);
    match (row, col) {
        (Some(r), Some(c)) => Some((r, c)),
        _ => None,
    }
}

fn is_undo(line: &str) -> (r: bool)
    ensures
        r == (line@ == "undo"@),
{
    proof {
        reveal_strlit("undo");
    }
    let n = line.unicode_len();
    if n != 4 {
        return false;
    }
    let r = line.get_char(0) == 'u' && line.get_char(1) == 'n' && line.get_char(2) == 'd'
        && line.get_char(3) == 'o';
    proof {
        if r {
            assert(line@ =~= "undo"@);
        }
    }
    r
}

/// Interprets one trimmed, lower-cased line of input: the exact word "undo",
/// a placement at two in-range coordinates, or an invalid command.
pub fn interpret(line: &str) -> (c: Command)
    ensures
        c == interpret_spec(line@),
{
    if is_undo(line) {
        Command::Undo
    } else {
        match parse_move(line) {
            Some((row, col)) => Command::PlaceAt(row, col),
            None => Command::Invalid,
        }
    }
}

} // verus!
