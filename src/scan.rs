//! Primitive matchers on a character sequence.
use vstd::prelude::*;
use read_token::{NumberSettings, ReadToken};

verus! {

/// Whether `c` has the Unicode `White_Space` property, as `char::is_whitespace`
/// decides it.
pub open spec fn is_ws(c: char) -> bool {
    ('\u{9}' <= c && c <= '\u{d}') || c == ' ' || c == '\u{85}' || c == '\u{a0}' || c == '\u{1680}'
        || ('\u{2000}' <= c && c <= '\u{200a}') || c == '\u{2028}' || c == '\u{2029}' || c == '\u{202f}'
        || c == '\u{205f}' || c == '\u{3000}'
}

/// Length of the numeral that `read_token` finds at the start of `s`.
pub uninterp spec fn number_len(s: Seq<char>, allow_underscore: bool) -> Option<nat>;

/// Whether `read_token` reads the numeral `lit` as a number.
pub uninterp spec fn number_ok(lit: Seq<char>, allow_underscore: bool) -> bool;

/// Length in characters of the quoted text literal that `read_token` finds at
/// the start of `s`.
pub uninterp spec fn text_len(s: Seq<char>) -> Option<nat>;

/// Whether the escapes of the quoted text literal `lit` are valid.
pub uninterp spec fn text_ok(lit: Seq<char>) -> bool;

/// Whether `c` is whitespace.
pub fn whitespace_char(c: char) -> (r: bool)
    ensures
        r == is_ws(c),
{
    ('\u{9}' <= c && c <= '\u{d}') || c == ' ' || c == '\u{85}' || c == '\u{a0}' || c == '\u{1680}'
        || ('\u{2000}' <= c && c <= '\u{200a}') || c == '\u{2028}' || c == '\u{2029}' || c == '\u{202f}'
        || c == '\u{205f}' || c == '\u{3000}'
}

/// Relies on `read_token::ReadToken::number`: the numeral it finds is
/// non-empty and made of ASCII characters, so its byte length is its length
/// in characters.
#[verifier::external_body]
pub(crate) fn scan_number(input: &Vec<char>, pos: usize, allow_underscore: bool) -> (r: Option<usize>)
    requires
        pos <= input@.len(),
    ensures
        r.is_some() == number_len(input@.subrange(pos as int, input@.len() as int), allow_underscore).is_some(),
        r matches Some(n) ==> n as nat == number_len(input@.subrange(pos as int, input@.len() as int), allow_underscore)->Some_0
            && 0 < n <= input@.len() - pos,
{
    let rest: String = input[pos..].iter().collect();
    let settings = NumberSettings { allow_underscore };
    ReadToken::new(&rest, 0).number(&settings).map(|range| range.length)
}

/// The number of characters after the first `e` or `E` of `lit`, or zero.
pub open spec fn exponent_width(lit: Seq<char>) -> nat
    decreases lit.len(),
{
    if lit.len() == 0 {
        0
    } else if lit[0] == 'e' || lit[0] == 'E' {
        (lit.len() - 1) as nat
    } else {
        exponent_width(lit.drop_first())
    }
}

/// The widest exponent that `read_token` reads into a `u64` without overflow.
pub const MAX_EXPONENT_WIDTH: usize = 19;

/// The number of characters after the first `e` or `E` of the `n`
/// characters of `s` from `pos`.
pub fn exponent_width_at(s: &Vec<char>, pos: usize, n: usize) -> (r: usize)
    requires
        pos + n <= s@.len(),
    ensures
        r as nat == exponent_width(s@.subrange(pos as int, pos + n)),
{
    let mut k: usize = 0;
    while k < n
        invariant
            k <= n,
            pos + n <= s.len(),
            exponent_width(s@.subrange(pos as int, pos + n)) == exponent_width(s@.subrange(pos + k, pos + n)),
        decreases n - k,
    {
        let c = s[pos + k];
        assert(s@.subrange(pos + k, pos + n)[0] == c);
        if c == 'e' || c == 'E' {
            return n - k - 1;
        }
        assert(s@.subrange(pos + k, pos + n).drop_first() =~= s@.subrange(pos + k + 1, pos + n));
        k = k + 1;
    }
    0
}

/// Whether the exponent text `e` (what follows `e` or `E`) reads as a
/// decimal integer: an optional sign, then digits, and underscores where
/// `allow_underscore`.
pub open spec fn exponent_chars_ok(e: Seq<char>, allow_underscore: bool) -> bool {
    e.len() > 0 && forall|k: int|
        (if e[0] == '+' || e[0] == '-' { 1int } else { 0int }) <= k < e.len()
            ==> ('0' <= #[trigger] e[k] && e[k] <= '9') || (allow_underscore && e[k] == '_')
}

/// Whether the numeral `lit` converts: within `MAX_EXPONENT_WIDTH` as
/// `read_token` decides it; with a wider exponent, when the exponent is an
/// integer and the numeral with the exponent `0` converts.
pub open spec fn numeral_ok(lit: Seq<char>, allow_underscore: bool) -> bool {
    let w = exponent_width(lit);
    if w <= MAX_EXPONENT_WIDTH {
        number_ok(lit, allow_underscore)
    } else {
        exponent_chars_ok(lit.subrange(lit.len() - w, lit.len() as int), allow_underscore)
            && number_ok(lit.subrange(0, lit.len() - w).push('0'), allow_underscore)
    }
}

proof fn lemma_exponent_zero(lit: Seq<char>)
    requires
        exponent_width(lit) > 0,
    ensures
        exponent_width(lit) < lit.len(),
        exponent_width(lit.subrange(0, lit.len() - exponent_width(lit)).push('0')) == 1,
    decreases lit.len(),
{
    let w = exponent_width(lit);
    let z = lit.subrange(0, lit.len() - w).push('0');
    if lit[0] == 'e' || lit[0] == 'E' {
        assert(z[0] == lit[0]);
    } else {
        lemma_exponent_zero(lit.drop_first());
        assert(z.drop_first() =~= lit.drop_first().subrange(0, lit.drop_first().len() - w).push('0'));
        assert(z[0] == lit[0]);
    }
}

/// The `n` characters of `s` from `pos`.
fn copy_range(s: &Vec<char>, pos: usize, n: usize) -> (r: Vec<char>)
    requires
        pos + n <= s@.len(),
    ensures
        r@ == s@.subrange(pos as int, pos + n),
{
    let mut r: Vec<char> = Vec::new();
    let mut k: usize = 0;
    while k < n
        invariant
            k <= n,
            pos + n <= s.len(),
            r@ == s@.subrange(pos as int, pos + k),
        decreases n - k,
    {
        r.push(s[pos + k]);
        assert(r@ =~= s@.subrange(pos as int, pos + k + 1));
        k = k + 1;
    }
    r
}

/// Whether the exponent text of `s[from..to]` reads as an integer.
fn exponent_chars_valid(s: &Vec<char>, from: usize, to: usize, allow_underscore: bool) -> (r: bool)
    requires
        from <= to <= s@.len(),
    ensures
        r == exponent_chars_ok(s@.subrange(from as int, to as int), allow_underscore),
{
    let ghost e = s@.subrange(from as int, to as int);
    if from == to {
        return false;
    }
    let first = s[from];
    let start: usize = if first == '+' || first == '-' { from + 1 } else { from };
    let mut k: usize = start;
    while k < to
        invariant
            from < to <= s@.len(),
            e == s@.subrange(from as int, to as int),
            start == from + (if e[0] == '+' || e[0] == '-' { 1int } else { 0int }),
            start <= k <= to,
            forall|j: int| start - from <= j < k - from
                ==> ('0' <= #[trigger] e[j] && e[j] <= '9') || (allow_underscore && e[j] == '_'),
        decreases to - k,
    {
        let c = s[k];
        assert(e[k - from] == c);
        if !(('0' <= c && c <= '9') || (allow_underscore && c == '_')) {
            return false;
        }
        k = k + 1;
    }
    true
}

/// Whether the `n` characters of `s` from `pos` form a numeral that converts.
pub fn numeral_valid(s: &Vec<char>, pos: usize, n: usize, allow_underscore: bool) -> (r: bool)
    requires
        pos + n <= s@.len(),
    ensures
        r == numeral_ok(s@.subrange(pos as int, pos + n), allow_underscore),
{
    let ghost lit = s@.subrange(pos as int, pos + n);
    let w = exponent_width_at(s, pos, n);
    if w <= MAX_EXPONENT_WIDTH {
        let lit_chars = copy_range(s, pos, n);
        number_parses(&lit_chars, allow_underscore)
    } else {
        proof {
            lemma_exponent_zero(lit);
        }
        assert(pos + n <= s.len());
        let end: usize = pos + n;
        assert(s@.subrange((end - w) as int, end as int) =~= lit.subrange(lit.len() - w, lit.len() as int));
        if !exponent_chars_valid(s, end - w, end, allow_underscore) {
            return false;
        }
        let mut zeroed = copy_range(s, pos, n - w);
        zeroed.push('0');
        assert(zeroed@ =~= lit.subrange(0, lit.len() - w).push('0'));
        number_parses(&zeroed, allow_underscore)
    }
}

/// Relies on `read_token::ReadToken::parse_number`: whether the numeral
/// converts. It reads the exponent into a `u64`, which overflows for wider
/// exponents than `MAX_EXPONENT_WIDTH`.
#[verifier::external_body]
pub(crate) fn number_parses(lit: &Vec<char>, allow_underscore: bool) -> (r: bool)
    requires
        exponent_width(lit@) <= MAX_EXPONENT_WIDTH,
    ensures
        r == number_ok(lit@, allow_underscore),
{
    let text: String = lit.iter().collect();
    let settings = NumberSettings { allow_underscore };
    ReadToken::new(&text, 0).parse_number(&settings, text.len()).is_ok()
}

/// Relies on `read_token::ReadToken::string`: a literal spans its two quotes
/// at least. Its byte length is converted to a length in characters.
#[verifier::external_body]
pub(crate) fn scan_text(input: &Vec<char>, pos: usize) -> (r: Option<usize>)
    requires
        pos <= input@.len(),
    ensures
        r.is_some() == text_len(input@.subrange(pos as int, input@.len() as int)).is_some(),
        r matches Some(n) ==> n as nat == text_len(input@.subrange(pos as int, input@.len() as int))->Some_0
            && 2 <= n <= input@.len() - pos,
{
    let rest: String = input[pos..].iter().collect();
    ReadToken::new(&rest, 0).string().map(|range| rest[..range.length].chars().count())
}

/// Relies on `read_token::ReadToken::parse_string`: whether the escapes of a
/// literal that `scan_text` found are valid.
#[verifier::external_body]
pub(crate) fn text_parses(input: &Vec<char>, pos: usize, n: usize) -> (r: bool)
    requires
        pos + n <= input@.len(),
        text_len(input@.subrange(pos as int, input@.len() as int)) == Some(n as nat),
        2 <= n,
    ensures
        r == text_ok(input@.subrange(pos as int, pos + n)),
{
    let lit: String = input[pos..][..n].iter().collect();
    ReadToken::new(&lit, 0).parse_string(lit.len()).is_ok()
}

/// Whether `text` occurs in `s` at `pos`.
pub open spec fn occurs_at(s: Seq<char>, pos: int, text: Seq<char>) -> bool {
    0 <= pos && pos + text.len() <= s.len() && s.subrange(pos, pos + text.len()) == text
}

/// The end of the maximal whitespace run of `s` from `pos`.
pub open spec fn ws_end(s: Seq<char>, pos: nat) -> nat
    decreases s.len() - pos,
{
    if pos < s.len() && is_ws(s[pos as int]) {
        ws_end(s, pos + 1)
    } else {
        pos
    }
}

/// The first offset from `pos` that holds a character of `delims` (or, when
/// `stop_ws`, whitespace), or the end of `s`.
pub open spec fn until_end(s: Seq<char>, pos: nat, delims: Seq<char>, stop_ws: bool) -> nat
    decreases s.len() - pos,
{
    if pos < s.len() && !delims.contains(s[pos as int]) && !(stop_ws && is_ws(s[pos as int])) {
        until_end(s, pos + 1, delims, stop_ws)
    } else {
        pos
    }
}

/// The end of the run of whitespace other than line breaks from `pos`.
pub open spec fn blank_end(s: Seq<char>, pos: nat) -> nat
    decreases s.len() - pos,
{
    if pos < s.len() && is_ws(s[pos as int]) && s[pos as int] != '\n' {
        blank_end(s, pos + 1)
    } else {
        pos
    }
}

/// Whether `s[lo..hi]` ends with a line break followed by whitespace only.
pub open spec fn ends_with_newline(s: Seq<char>, lo: int, hi: int) -> bool
    decreases hi - lo,
{
    if hi <= lo {
        false
    } else if s[hi - 1] == '\n' {
        true
    } else if is_ws(s[hi - 1]) {
        ends_with_newline(s, lo, hi - 1)
    } else {
        false
    }
}

/// The end of the run of whitespace other than line breaks from `pos`.
pub fn skip_blank(s: &Vec<char>, pos: usize) -> (r: usize)
    requires
        pos <= s@.len(),
    ensures
        r as nat == blank_end(s@, pos as nat),
        pos <= r <= s@.len(),
{
    let mut i: usize = pos;
    while i < s.len() && whitespace_char(s[i]) && s[i] != '\n'
        invariant
            pos <= i <= s@.len(),
            blank_end(s@, i as nat) == blank_end(s@, pos as nat),
        decreases s@.len() - i,
    {
        i = i + 1;
    }
    i
}

/// Whether `s[lo..hi]` ends with a line break followed by whitespace only.
pub fn newline_at_end(s: &Vec<char>, lo: usize, hi: usize) -> (r: bool)
    requires
        lo <= hi <= s@.len(),
    ensures
        r == ends_with_newline(s@, lo as int, hi as int),
{
    let mut j: usize = hi;
    while j > lo
        invariant
            lo <= j <= hi <= s@.len(),
            ends_with_newline(s@, lo as int, hi as int) == ends_with_newline(s@, lo as int, j as int),
        decreases j,
    {
        let c = s[j - 1];
        if c == '\n' {
            return true;
        }
        if !whitespace_char(c) {
            return false;
        }
        j = j - 1;
    }
    false
}

/// Whether `text` occurs in `s` at `pos`.
pub fn matches_at(s: &Vec<char>, pos: usize, text: &Vec<char>) -> (r: bool)
    requires
        pos <= s@.len(),
    ensures
        r == occurs_at(s@, pos as int, text@),
{
    if text.len() > s.len() - pos {
        return false;
    }
    let mut k: usize = 0;
    while k < text.len()
        invariant
            k <= text@.len(),
            pos + text@.len() <= s.len(),
            s@.subrange(pos as int, pos + k) == text@.subrange(0, k as int),
        decreases text@.len() - k,
    {
        if s[pos + k] != text[k] {
            assert(s@.subrange(pos as int, pos + text@.len())[k as int] != text@[k as int]);
            return false;
        }
        assert(s@.subrange(pos as int, pos + k + 1) =~= text@.subrange(0, k + 1)) by {
            assert(s@.subrange(pos as int, pos + k + 1) =~= s@.subrange(pos as int, pos + k).push(s@[pos + k]));
            assert(text@.subrange(0, k + 1) =~= text@.subrange(0, k as int).push(text@[k as int]));
        }
        k = k + 1;
    }
    assert(text@.subrange(0, k as int) =~= text@);
    true
}

/// The end of the maximal whitespace run from `pos`.
pub fn skip_whitespace(s: &Vec<char>, pos: usize) -> (r: usize)
    requires
        pos <= s@.len(),
    ensures
        r as nat == ws_end(s@, pos as nat),
        pos <= r <= s@.len(),
{
    let mut i: usize = pos;
    while i < s.len() && whitespace_char(s[i])
        invariant
            pos <= i <= s@.len(),
            ws_end(s@, i as nat) == ws_end(s@, pos as nat),
        decreases s@.len() - i,
    {
        i = i + 1;
    }
    i
}

/// Whether `c` is one of `delims`.
pub fn is_delimiter(c: char, delims: &Vec<char>) -> (r: bool)
    ensures
        r == delims@.contains(c),
{
    let mut j: usize = 0;
    while j < delims.len()
        invariant
            j <= delims@.len(),
            forall|k: int| 0 <= k < j ==> delims@[k] != c,
        decreases delims@.len() - j,
    {
        if delims[j] == c {
            assert(delims@[j as int] == c);
            return true;
        }
        j = j + 1;
    }
    false
}

/// The first offset from `pos` that holds a delimiter (or, when `stop_ws`,
/// whitespace), or the end of `s`.
pub fn skip_until(s: &Vec<char>, pos: usize, delims: &Vec<char>, stop_ws: bool) -> (r: usize)
    requires
        pos <= s@.len(),
    ensures
        r as nat == until_end(s@, pos as nat, delims@, stop_ws),
        pos <= r <= s@.len(),
{
    let mut i: usize = pos;
    while i < s.len()
        invariant
            pos <= i <= s@.len(),
            until_end(s@, i as nat, delims@, stop_ws) == until_end(s@, pos as nat, delims@, stop_ws),
        decreases s@.len() - i,
    {
        let c = s[i];
        if is_delimiter(c, delims) {
            return i;
        }
        if stop_ws && whitespace_char(c) {
            return i;
        }
        i = i + 1;
    }
    i
}

} // verus!
