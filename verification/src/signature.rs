//! Byte signatures with wildcards, and where they match in a buffer.

use vstd::prelude::*;
use vstd::string::is_ascii_spec_bytes;
use crate::error::MemoryError;
use crate::syntax::{
    hex_value, lemma_parse_ascii, lemma_token_len, parse_text, token_cell, token_len,
};

verus! {

/// One position of a signature: any byte, or exactly one byte value.
#[derive(Clone, Copy, Debug, PartialEq, Eq, Structural)]
pub enum Cell {
    Any,
    Exact(u8),
}

impl Cell {
    /// Whether this cell accepts the byte `b`.
    pub open spec fn accepts(self, b: u8) -> bool {
        match self {
            Cell::Any => true,
            Cell::Exact(v) => v == b,
        }
    }
}

/// The window of `hay` that starts at `at` lies inside `hay` and every cell
/// of `pattern` accepts the byte under it.
pub open spec fn matches_at(pattern: Seq<Cell>, hay: Seq<u8>, at: int) -> bool {
    &&& 0 <= at
    &&& at + pattern.len() <= hay.len()
    &&& forall|j: int| 0 <= j < pattern.len() ==> (#[trigger] pattern[j]).accepts(hay[at + j])
}

/// `at` is the lowest offset at which `pattern` matches in `hay`.
pub open spec fn is_first_match(pattern: Seq<Cell>, hay: Seq<u8>, at: int) -> bool {
    &&& matches_at(pattern, hay, at)
    &&& forall|i: int| 0 <= i < at ==> !matches_at(pattern, hay, i)
}

/// `pattern` matches nowhere in `hay`.
pub open spec fn no_match(pattern: Seq<Cell>, hay: Seq<u8>) -> bool {
    forall|i: int| !matches_at(pattern, hay, i)
}

/// What a scan for the first match returns: the lowest matching offset, or
/// nothing when there is none.
pub open spec fn is_scan_result(pattern: Seq<Cell>, hay: Seq<u8>, found: Option<u64>) -> bool {
    match found {
        Some(at) => is_first_match(pattern, hay, at as int),
        None => no_match(pattern, hay),
    }
}

/// The lowest offset at which `pattern` matches in `hay`, if it matches at all.
pub open spec fn first_match(pattern: Seq<Cell>, hay: Seq<u8>) -> Option<int> {
    if exists|at: int| matches_at(pattern, hay, at) {
        Some(choose|at: int| is_first_match(pattern, hay, at))
    } else {
        None
    }
}

/// Where `pattern` matches at `at`, it has a first match, at `at` or before.
proof fn lemma_first_match_exists(pattern: Seq<Cell>, hay: Seq<u8>, at: int)
    requires
        matches_at(pattern, hay, at),
    ensures
        exists|first: int| first <= at && is_first_match(pattern, hay, first),
    decreases at,
{
    if exists|i: int| 0 <= i < at && matches_at(pattern, hay, i) {
        let i = choose|i: int| 0 <= i < at && matches_at(pattern, hay, i);
        lemma_first_match_exists(pattern, hay, i);
    } else {
        assert(is_first_match(pattern, hay, at));
    }
}

/// `first_match` is the lowest offset at which the signature matches, and
/// is nothing only where it matches nowhere.
pub proof fn lemma_first_match(pattern: Seq<Cell>, hay: Seq<u8>)
    ensures
        match first_match(pattern, hay) {
            Some(at) => is_first_match(pattern, hay, at),
            None => no_match(pattern, hay),
        },
{
    if exists|at: int| matches_at(pattern, hay, at) {
        let at = choose|at: int| matches_at(pattern, hay, at);
        lemma_first_match_exists(pattern, hay, at);
    }
}

/// The result of a scan is the lowest matching offset.
pub proof fn lemma_scan_result_is_first_match(
    pattern: Seq<Cell>,
    hay: Seq<u8>,
    found: Option<u64>,
)
    requires
        is_scan_result(pattern, hay, found),
    ensures
        match found {
            Some(at) => first_match(pattern, hay) == Some(at as int),
            None => first_match(pattern, hay) is None,
        },
{
    if let Some(at) = found {
        // both are lowest matches, so neither lies below the other
        let chosen = choose|first: int| is_first_match(pattern, hay, first);
        assert(chosen == at);
    }
}

/// `offsets` lists every offset at which `pattern` matches in `hay`, each
/// once, lowest first. Matches that overlap are all listed.
pub open spec fn is_all_matches(pattern: Seq<Cell>, hay: Seq<u8>, offsets: Seq<u64>) -> bool {
    &&& forall|i: int, j: int| 0 <= i < j < offsets.len() ==> offsets[i] < offsets[j]
    &&& forall|i: int|
        0 <= i < offsets.len() ==> matches_at(pattern, hay, #[trigger] offsets[i] as int)
    &&& forall|at: int| #[trigger]
        matches_at(pattern, hay, at) ==> exists|i: int|
            0 <= i < offsets.len() && #[trigger] offsets[i] == at
}

/// The signature without wildcards that asks for exactly `bytes`.
pub open spec fn exact_cells(bytes: Seq<u8>) -> Seq<Cell> {
    Seq::new(bytes.len(), |i: int| Cell::Exact(bytes[i]))
}

/// A signature without wildcards matches exactly where its bytes stand in
/// the buffer as a contiguous run.
pub proof fn lemma_exact_match_is_occurrence(bytes: Seq<u8>, hay: Seq<u8>, at: int)
    ensures
        matches_at(exact_cells(bytes), hay, at) <==> (0 <= at && at + bytes.len() <= hay.len()
            && hay.subrange(at, at + bytes.len()) == bytes),
{
    let pattern = exact_cells(bytes);
    if 0 <= at && at + bytes.len() <= hay.len() {
        let window = hay.subrange(at, at + bytes.len());
        if matches_at(pattern, hay, at) {
            assert forall|j: int| 0 <= j < bytes.len() implies window[j] == bytes[j] by {
                assert(pattern[j].accepts(hay[at + j]));
            }
            assert(window =~= bytes);
        }
        if window == bytes {
            assert forall|j: int| 0 <= j < pattern.len() implies (#[trigger] pattern[j]).accepts(
                hay[at + j],
            ) by {
                assert(window[j] == hay[at + j]);
            }
        }
    }
}

/// Where the bytes of a signature without wildcards stand in the buffer at
/// offset `at`, and the signature matches at no lower offset, a scan returns
/// `at`.
pub proof fn lemma_scan_finds_exact_occurrence(
    bytes: Seq<u8>,
    hay: Seq<u8>,
    at: int,
    found: Option<u64>,
)
    requires
        0 <= at,
        at + bytes.len() <= hay.len(),
        hay.subrange(at, at + bytes.len()) == bytes,
        forall|i: int| 0 <= i < at ==> !matches_at(exact_cells(bytes), hay, i),
        is_scan_result(exact_cells(bytes), hay, found),
    ensures
        found matches Some(offset) && offset == at,
{
    lemma_exact_match_is_occurrence(bytes, hay, at);
}

/// A signature that is longer than the buffer matches nowhere in it, so a
/// scan returns nothing.
pub proof fn lemma_scan_of_short_buffer(pattern: Seq<Cell>, hay: Seq<u8>, found: Option<u64>)
    requires
        pattern.len() > hay.len(),
        is_scan_result(pattern, hay, found),
    ensures
        found is None,
        no_match(pattern, hay),
{
}

/// A signature of wildcards only matches at offset 0 of every buffer that is
/// at least as long, so a scan returns 0.
pub proof fn lemma_scan_of_wildcards(pattern: Seq<Cell>, hay: Seq<u8>, found: Option<u64>)
    requires
        forall|j: int| 0 <= j < pattern.len() ==> pattern[j] == Cell::Any,
        pattern.len() <= hay.len(),
        is_scan_result(pattern, hay, found),
    ensures
        matches_at(pattern, hay, 0),
        found == Some(0u64),
{
    assert(matches_at(pattern, hay, 0));
}

/// A scan has one result only: two results for one signature and one buffer
/// are equal.
pub proof fn lemma_scan_result_unique(
    pattern: Seq<Cell>,
    hay: Seq<u8>,
    first: Option<u64>,
    second: Option<u64>,
)
    requires
        is_scan_result(pattern, hay, first),
        is_scan_result(pattern, hay, second),
    ensures
        first == second,
{
}

/// A compiled signature: at least one cell, each a byte value or a wildcard.
///
/// `value` holds the byte of each position and `mask` marks the wildcards with
/// `'?'`; any other mark stands for an exact byte.
#[derive(Debug)]
pub struct Signature {
    value: Vec<u8>,
    mask: Vec<char>,
}

/// The cell that a byte value and its mark describe: the mark `'?'` is a
/// wildcard, any other mark asks for the byte value.
pub open spec fn cell_of(value: u8, mark: char) -> Cell {
    if mark == '?' {
        Cell::Any
    } else {
        Cell::Exact(value)
    }
}

/// The cells that byte values and the marks at their positions describe.
pub open spec fn cells_of(value: Seq<u8>, mask: Seq<char>) -> Seq<Cell> {
    Seq::new(mask.len(), |i: int| cell_of(value[i], mask[i]))
}

impl View for Signature {
    type V = Seq<Cell>;

    closed spec fn view(&self) -> Seq<Cell> {
        cells_of(self.value@, self.mask@)
    }
}

/// `bytes` holds the ASCII text `text`, one byte for each character.
spec fn ascii_bytes_of(bytes: Seq<u8>, text: Seq<char>) -> bool {
    &&& bytes.len() == text.len()
    &&& forall|k: int|
        0 <= k < text.len() ==> '\0' <= #[trigger] text[k] <= '\u{7f}' && bytes[k] == text[k] as u8
}

/// `cells` put before the cells of a parsed remainder, if it has any.
spec fn prepend(cells: Seq<Cell>, parsed: Option<Seq<Cell>>) -> Option<Seq<Cell>> {
    match parsed {
        Some(rest) => Some(cells + rest),
        None => None,
    }
}

/// ASCII code of `?`.
const QUESTION_MARK: u8 = 0x3f;

/// ASCII code of the space between tokens.
const SPACE: u8 = 0x20;

/// ASCII code of `0`.
const DIGIT_ZERO: u8 = 0x30;

/// ASCII code of `9`.
const DIGIT_NINE: u8 = 0x39;

/// ASCII code of `A`.
const UPPER_A: u8 = 0x41;

/// ASCII code of `F`.
const UPPER_F: u8 = 0x46;

/// ASCII code of `a`.
const LOWER_A: u8 = 0x61;

/// ASCII code of `f`.
const LOWER_F: u8 = 0x66;

/// The value of the hexadecimal digit `b`, if it is one.
fn hex_digit(b: u8) -> (digit: Option<u8>)
    ensures
        digit == hex_value(b as char),
{
    if DIGIT_ZERO <= b && b <= DIGIT_NINE {
        Some(b - DIGIT_ZERO)
    } else if LOWER_A <= b && b <= LOWER_F {
        Some(b - LOWER_A + 10)
    } else if UPPER_A <= b && b <= UPPER_F {
        Some(b - UPPER_A + 10)
    } else {
        None
    }
}

/// Reads the token that starts at `at`: its byte value, its mark and its
/// width, or nothing if no token starts there.
fn token_at(bytes: &[u8], at: usize, Ghost(text): Ghost<Seq<char>>) -> (token: Option<
    (u8, char, usize),
>)
    requires
        ascii_bytes_of(bytes@, text),
        at <= bytes@.len(),
    ensures
        match token {
            Some((value, mark, width)) => {
                &&& at + width <= bytes@.len()
                &&& token_len(text.skip(at as int)) == width
                &&& token_cell(text.skip(at as int).take(width as int)) == Some(
                    cell_of(value, mark),
                )
            },
            None => token_cell(
                text.skip(at as int).take(token_len(text.skip(at as int)) as int),
            ) is None,
        },
{
    let len: usize = bytes.len();
    let ghost rest = text.skip(at as int);
    proof {
        lemma_token_len(rest);
    }
    if at >= len {
        return None;
    }
    let first: u8 = bytes[at];
    let end: usize;
    let value: u8;
    let mark: char;
    if first == QUESTION_MARK {
        end = at + 1;
        value = 0;
        mark = '?';
    } else {
        match hex_digit(first) {
            None => {
                return None;
            },
            Some(high) => {
                if len - at < 2 {
                    return None;
                }
                let second: u8 = bytes[at + 1];
                match hex_digit(second) {
                    None => {
                        return None;
                    },
                    Some(low) => {
                        end = at + 2;
                        value = high * 16 + low;
                        mark = 'x';
                    },
                }
            },
        }
    }
    if end < len {
        assert(rest[end - at] == text[end as int]);
        if bytes[end] != SPACE {
            return None;
        }
    }
    Some((value, mark, end - at))
}

impl Signature {
    #[verifier::type_invariant]
    spec fn well_formed(&self) -> bool {
        &&& self.value@.len() == self.mask@.len()
        &&& self.mask@.len() >= 1
    }

    /// Compiles a signature text such as `"8D 65 F4 ? ? 5D C3"`.
    ///
    /// The text is refused with [`MemoryError::Parse`] unless it is a list of
    /// tokens, each `?` or two hexadecimal digits, with one space between
    /// neighbours.
    pub fn new(signature: &str) -> (compiled: Result<Signature, MemoryError>)
        ensures
            match compiled {
                Ok(made) => parse_text(signature@) == Some(made@),
                Err(error) => error == MemoryError::Parse && parse_text(signature@) is None,
            },
    {
        if !signature.is_ascii() {
            proof {
                if parse_text(signature@) is Some {
                    lemma_parse_ascii(signature@);
                }
            }
            return Err(MemoryError::Parse);
        }
        let bytes = signature.as_bytes();
        proof {
            is_ascii_spec_bytes(signature);
        }
        let len: usize = bytes.len();
        let mut value: Vec<u8> = Vec::new();
        let mut mask: Vec<char> = Vec::new();
        let mut at: usize = 0;
        assert(signature@.skip(0) =~= signature@);
        loop
            invariant
                ascii_bytes_of(bytes@, signature@),
                len == bytes@.len(),
                at <= len,
                value@.len() == mask@.len(),
                parse_text(signature@) == prepend(
                    cells_of(value@, mask@),
                    parse_text(signature@.skip(at as int)),
                ),
            decreases len - at,
        {
            let ghost rest = signature@.skip(at as int);
            let ghost before = cells_of(value@, mask@);
            match token_at(bytes, at, Ghost(signature@)) {
                None => {
                    return Err(MemoryError::Parse);
                },
                Some((byte, mark, width)) => {
                    value.push(byte);
                    mask.push(mark);
                    let ghost cell = cell_of(byte, mark);
                    if width == len - at {
                        return Ok(Signature { value, mask });
                    }
                    assert(rest.skip(width + 1) =~= signature@.skip(at + width + 1));
                    assert forall|tail: Seq<Cell>|
                        before + (seq![cell] + tail) == (before + seq![cell]) + tail by {
                        assert(before + (seq![cell] + tail) =~= (before + seq![cell]) + tail);
                    }
                    at = at + width + 1;
                },
            }
        }
    }

    /// Compiles a signature text: [`Signature::new`] under the name of what
    /// it does.
    pub fn compile(text: &str) -> (compiled: Result<Signature, MemoryError>)
        ensures
            match compiled {
                Ok(signature) => parse_text(text@) == Some(signature@),
                Err(error) => error == MemoryError::Parse && parse_text(text@) is None,
            },
    {
        Signature::new(text)
    }

    /// Number of cells.
    pub fn len(&self) -> (n: usize)
        ensures
            n == self@.len(),
            n >= 1,
    {
        proof {
            use_type_invariant(self);
        }
        self.mask.len()
    }

    /// The cells of the signature, in the order of its tokens.
    pub fn cells(&self) -> (cells: Vec<Cell>)
        ensures
            cells@ == self@,
    {
        proof {
            use_type_invariant(self);
        }
        let mut cells: Vec<Cell> = Vec::new();
        let mut i: usize = 0;
        while i < self.mask.len()
            invariant
                self.value@.len() == self.mask@.len(),
                i <= self.mask@.len(),
                cells@.len() == i,
                forall|k: int| 0 <= k < i ==> cells@[k] == self@[k],
            decreases self.mask@.len() - i,
        {
            if self.mask[i] == '?' {
                cells.push(Cell::Any);
            } else {
                cells.push(Cell::Exact(self.value[i]));
            }
            i += 1;
        }
        cells
    }

    /// Whether the signature matches the window of `buffer` that starts at `at`.
    pub fn matches(&self, buffer: &[u8], at: usize) -> (hit: bool)
        ensures
            hit == matches_at(self@, buffer@, at as int),
    {
        proof {
            use_type_invariant(self);
        }
        let n: usize = self.mask.len();
        let m: usize = buffer.len();
        if m < n || at > m - n {
            return false;
        }
        let mut j: usize = 0;
        while j < n
            invariant
                n == self.mask@.len(),
                n == self.value@.len(),
                m == buffer@.len(),
                j <= n,
                at + n <= m,
                forall|k: int| 0 <= k < j ==> (#[trigger] self@[k]).accepts(buffer@[at + k]),
            decreases n - j,
        {
            if self.mask[j] != '?' && self.value[j] != buffer[at + j] {
                assert(!self@[j as int].accepts(buffer@[at + j]));
                return false;
            }
            j += 1;
        }
        true
    }

    /// Lists every offset at which the signature matches in `buffer`, lowest
    /// first.
    pub fn scan_all(&self, buffer: &[u8]) -> (offsets: Vec<u64>)
        ensures
            is_all_matches(self@, buffer@, offsets@),
    {
        proof {
            use_type_invariant(self);
        }
        let mut offsets: Vec<u64> = Vec::new();
        let n: usize = self.mask.len();
        let m: usize = buffer.len();
        if m < n {
            return offsets;
        }
        let last: usize = m - n;
        let mut i: usize = 0;
        while i <= last
            invariant
                n == self@.len(),
                n >= 1,
                m == buffer@.len(),
                last + n == m,
                i <= last + 1,
                forall|a: int, b: int| 0 <= a < b < offsets@.len() ==> offsets@[a] < offsets@[b],
                forall|a: int| 0 <= a < offsets@.len() ==> offsets@[a] < i,
                forall|a: int|
                    0 <= a < offsets@.len() ==> matches_at(
                        self@,
                        buffer@,
                        #[trigger] offsets@[a] as int,
                    ),
                forall|at: int|
                    0 <= at < i && #[trigger] matches_at(self@, buffer@, at) ==> exists|a: int|
                        0 <= a < offsets@.len() && #[trigger] offsets@[a] == at,
            decreases last + 1 - i,
        {
            if self.matches(buffer, i) {
                let ghost before = offsets@;
                offsets.push(i as u64);
                assert forall|at: int|
                    0 <= at < i + 1 && #[trigger] matches_at(self@, buffer@, at) implies exists|
                    a: int,
                | 0 <= a < offsets@.len() && #[trigger] offsets@[a] == at by {
                    if at < i {
                        let a = choose|a: int| 0 <= a < before.len() && #[trigger] before[a] == at;
                        assert(offsets@[a] == at);
                    } else {
                        assert(offsets@[before.len() as int] == at);
                    }
                }
            }
            i += 1;
        }
        offsets
    }

    /// Finds the lowest offset at which the signature matches in `buffer`.
    pub fn scan(&self, buffer: &[u8]) -> (found: Option<u64>)
        ensures
            is_scan_result(self@, buffer@, found),
            found matches Some(at) ==> at < buffer@.len(),
    {
        proof {
            use_type_invariant(self);
        }
        let n: usize = self.mask.len();
        let m: usize = buffer.len();
        if m < n {
            return None;
        }
        let last: usize = m - n;
        let mut i: usize = 0;
        while i <= last
            invariant
                n == self@.len(),
                n >= 1,
                m == buffer@.len(),
                last + n == m,
                i <= last + 1,
                forall|k: int| 0 <= k < i ==> !matches_at(self@, buffer@, k),
            decreases last + 1 - i,
        {
            if self.matches(buffer, i) {
                return Some(i as u64);
            }
            i += 1;
        }
        None
    }
}

} // verus!
