//! The text form of an operation: how a line is taken apart, and what its
//! operator symbols mean.

use regex::Regex;
use vstd::prelude::*;
use vstd::string::*;

verus! {

/// The shape of a line: an integer, an operator symbol and an optional second
/// integer, each in a group of its own, with white space allowed around them.
/// Any one character that is neither a digit nor white space may stand in the
/// symbol's place: which symbols are operators is decided by `symbol_spec`,
/// so that a line with an unknown symbol is told apart from a line of another
/// shape.
pub const PATTERN: &'static str = r"^\s*(\-?[0-9]+)\s*([^0-9\s])\s*(\-?[0-9]+)?\s*$";

/// What searching `text` for the regular expression `pattern` finds: the text
/// of every capture group of the leftmost match, the whole match first, with
/// `None` for a group that took no part. `None` where nothing matches or
/// `pattern` is no regular expression.
pub uninterp spec fn regex_captures(pattern: Seq<char>, text: Seq<char>) -> Option<
    Seq<Option<Seq<char>>>,
>;

/// The characters of one capture group.
pub open spec fn group_view(group: Option<String>) -> Option<Seq<char>> {
    match group {
        Some(s) => Some(s@),
        None => None,
    }
}

/// The characters of the capture groups of a search.
pub open spec fn captures_view(captures: Option<Vec<Option<String>>>) -> Option<
    Seq<Option<Seq<char>>>,
> {
    match captures {
        Some(groups) => Some(Seq::new(groups@.len(), |i: int| group_view(groups@[i]))),
        None => None,
    }
}

/// Compiles `pattern` with `regex::Regex::new` and searches `text` with
/// `Regex::captures`, then copies out the text of each group that
/// `Captures::iter` yields. The contract claims only that the outcome is a
/// function of the two strings; what the groups hold is not stated here.
#[verifier::external_body]
pub(crate) fn search(pattern: &str, text: &str) -> (found: Option<Vec<Option<String>>>)
    ensures
        captures_view(found) == regex_captures(pattern@, text@),
{
    let regex = Regex::new(pattern).ok()?;
    let captures = regex.captures(text)?;
    Some(captures.iter().map(|group| group.map(|m| m.as_str().to_string())).collect())
}

/// The meaning of an operator symbol.
#[derive(Clone, Copy, Debug, PartialEq, Eq, Structural)]
pub enum Symbol {
    Plus,
    Minus,
    Times,
    Divide,
    Percent,
    Bang,
}

/// What the one-character text `op` means as an operator: `*`, `×` and `x`
/// multiply, `/` and `÷` divide. `None` for any other text.
pub open spec fn symbol_spec(op: Seq<char>) -> Option<Symbol> {
    if op.len() != 1 {
        None
    } else if op[0] == '+' {
        Some(Symbol::Plus)
    } else if op[0] == '-' {
        Some(Symbol::Minus)
    } else if op[0] == '*' || op[0] == '×' || op[0] == 'x' {
        Some(Symbol::Times)
    } else if op[0] == '/' || op[0] == '÷' {
        Some(Symbol::Divide)
    } else if op[0] == '%' {
        Some(Symbol::Percent)
    } else if op[0] == '!' {
        Some(Symbol::Bang)
    } else {
        None
    }
}

/// Reads an operator symbol.
pub fn symbol_of(op: &str) -> (r: Option<Symbol>)
    ensures
        r == symbol_spec(op@),
{
    if op.unicode_len() != 1 {
        return None;
    }
    let c = op.get_char(0);
    if c == '+' {
        Some(Symbol::Plus)
    } else if c == '-' {
        Some(Symbol::Minus)
    } else if c == '*' || c == '×' || c == 'x' {
        Some(Symbol::Times)
    } else if c == '/' || c == '÷' {
        Some(Symbol::Divide)
    } else if c == '%' {
        Some(Symbol::Percent)
    } else if c == '!' {
        Some(Symbol::Bang)
    } else {
        None
    }
}

/// The three groups of a matched line, as the search handed them out: the
/// first integer, the operator symbol, and the second integer if there is
/// one. `None` where the search found nothing or its groups have another
/// shape.
pub open spec fn line_parts(captures: Option<Seq<Option<Seq<char>>>>) -> Option<
    (Seq<char>, Seq<char>, Option<Seq<char>>),
> {
    match captures {
        Some(groups) => if groups.len() == 4 && groups[1] is Some && groups[2] is Some {
            Some((groups[1]->0, groups[2]->0, groups[3]))
        } else {
            None
        },
        None => None,
    }
}

} // verus!
