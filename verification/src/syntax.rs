//! The text form of a signature.
//!
//! A signature text is a list of tokens with exactly one space between
//! neighbours. A token is `?`, for any byte, or two hexadecimal digits, for
//! one byte value. Nothing else is a signature text: not the empty text, not
//! a text with a leading, trailing or doubled space.

use vstd::prelude::*;
use crate::prefix::{len_before, lemma_len_before, lemma_len_before_is};
use crate::signature::Cell;

verus! {

/// The value of a hexadecimal digit, in either case.
pub open spec fn hex_value(c: char) -> Option<u8> {
    if '0' <= c <= '9' {
        Some((c as int - '0' as int) as u8)
    } else if 'a' <= c <= 'f' {
        Some((c as int - 'a' as int + 10) as u8)
    } else if 'A' <= c <= 'F' {
        Some((c as int - 'A' as int + 10) as u8)
    } else {
        None
    }
}

/// The cell that one token stands for, if it is a token.
pub open spec fn token_cell(token: Seq<char>) -> Option<Cell> {
    if token.len() == 1 && token[0] == '?' {
        Some(Cell::Any)
    } else if token.len() == 2 {
        match (hex_value(token[0]), hex_value(token[1])) {
            (Some(high), Some(low)) => Some(Cell::Exact((16 * high + low) as u8)),
            _ => None,
        }
    } else {
        None
    }
}

/// Length of the first token of `text`: the characters before its first space.
pub open spec fn token_len(text: Seq<char>) -> nat {
    len_before(text, ' ')
}

/// The cells of a signature text, in the order of its tokens, or nothing if
/// some token of the text is neither `?` nor two hexadecimal digits.
pub open spec fn parse_text(text: Seq<char>) -> Option<Seq<Cell>>
    decreases text.len(),
{
    let n = token_len(text) as int;
    match token_cell(text.take(n)) {
        None => None,
        Some(cell) => if n >= text.len() {
            Some(seq![cell])
        } else {
            match parse_text(text.skip(n + 1)) {
                None => None,
                Some(rest) => Some(seq![cell] + rest),
            }
        },
    }
}

/// The first token ends where the first space stands, or at the end of the text.
pub proof fn lemma_token_len(text: Seq<char>)
    ensures
        token_len(text) <= text.len(),
        forall|k: int| 0 <= k < token_len(text) ==> text[k] != ' ',
        token_len(text) < text.len() ==> text[token_len(text) as int] == ' ',
{
    lemma_len_before(text, ' ');
}

/// A signature text has at least one cell.
pub proof fn lemma_parse_nonempty(text: Seq<char>)
    ensures
        parse_text(text) matches Some(cells) ==> cells.len() >= 1,
{
}

/// A signature text holds only `?`, hexadecimal digits and spaces, which
/// are all ASCII.
pub proof fn lemma_parse_ascii(text: Seq<char>)
    requires
        parse_text(text) is Some,
    ensures
        forall|k: int| 0 <= k < text.len() ==> '\0' <= #[trigger] text[k] <= '\u{7f}',
    decreases text.len(),
{
    lemma_token_len(text);
    let n = token_len(text) as int;
    // the first token is `?` or two hexadecimal digits
    let token = text.take(n);
    assert(forall|k: int| 0 <= k < n ==> token[k] == text[k]);
    if n < text.len() {
        // a space follows it, and the rest is a signature text
        let rest = text.skip(n + 1);
        lemma_parse_ascii(rest);
        assert forall|k: int| n < k < text.len() implies '\0' <= #[trigger] text[k] <= '\u{7f}' by {
            assert(text[k] == rest[k - n - 1]);
        }
    }
}

/// A text without a space is a signature text just when it is one token,
/// and has the one cell of that token.
pub proof fn lemma_parse_token(token: Seq<char>)
    requires
        forall|k: int| 0 <= k < token.len() ==> token[k] != ' ',
    ensures
        parse_text(token) == match token_cell(token) {
            Some(cell) => Some(seq![cell]),
            None => None,
        },
{
    lemma_len_before_is(token, ' ', token.len() as int);
    assert(token.take(token.len() as int) =~= token);
}

/// Two texts joined by one space are a signature text just when both are
/// signature texts, and their cells are then those of the first followed by
/// those of the second.
pub proof fn lemma_parse_join(first: Seq<char>, second: Seq<char>)
    ensures
        parse_text(first + seq![' '] + second) == match (parse_text(first), parse_text(second)) {
            (Some(before), Some(after)) => Some(before + after),
            _ => None,
        },
    decreases first.len(),
{
    let joined = first + seq![' '] + second;
    lemma_token_len(first);
    let n = token_len(first) as int;
    // the joined text begins with the first token of `first`
    lemma_len_before_is(joined, ' ', n);
    assert(joined.take(n) =~= first.take(n));
    if let Some(cell) = token_cell(first.take(n)) {
        if n >= first.len() {
            // and `second` follows it
            assert(joined.skip(n + 1) =~= second);
        } else {
            // and the rest of `first`, joined to `second`, follows it
            let rest = first.skip(n + 1);
            assert(joined.skip(n + 1) =~= rest + seq![' '] + second);
            lemma_parse_join(rest, second);
            if let (Some(middle), Some(after)) = (parse_text(rest), parse_text(second)) {
                assert(seq![cell] + (middle + after) =~= (seq![cell] + middle) + after);
            }
        }
    }
}

} // verus!
