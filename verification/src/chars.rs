//! Character classes and scanning primitives used by the line patterns.
//!
//! All patterns of the trace format are built from three character classes
//! (decimal digits, ASCII whitespace, and the tab separator) plus literal
//! text.  The spec functions here define maximal runs of those classes over
//! a `Seq<char>`; the exec functions compute them over a `&str`.

use vstd::prelude::*;

verus! {

/// A decimal digit `'0'`..=`'9'`.
pub open spec fn is_digit(c: char) -> bool {
    48 <= c as u32 && c as u32 <= 57
}

/// Numeric value of a digit character.
pub open spec fn digit_val(c: char) -> int
    recommends
        is_digit(c),
{
    c as u32 - 48
}

/// ASCII whitespace, as the format's patterns understand it.
pub open spec fn is_ws(c: char) -> bool {
    c == ' ' || c == '\t' || c == '\n' || c == '\r' || c == '\u{b}' || c == '\u{c}'
}

/// First index at or after `i` holding a tab, or `s.len()` if none.
pub open spec fn tab_end(s: Seq<char>, i: int) -> int
    decreases s.len() - i when 0 <= i <= s.len()
{
    if i >= s.len() {
        i
    } else if s[i] == '\t' {
        i
    } else {
        tab_end(s, i + 1)
    }
}

/// First index at or after `i` holding a non-digit, or `s.len()` if none.
pub open spec fn digit_end(s: Seq<char>, i: int) -> int
    decreases s.len() - i when 0 <= i <= s.len()
{
    if i >= s.len() {
        i
    } else if is_digit(s[i]) {
        digit_end(s, i + 1)
    } else {
        i
    }
}

/// First index at or after `i` holding a non-whitespace, or `s.len()` if none.
pub open spec fn ws_end(s: Seq<char>, i: int) -> int
    decreases s.len() - i when 0 <= i <= s.len()
{
    if i >= s.len() {
        i
    } else if is_ws(s[i]) {
        ws_end(s, i + 1)
    } else {
        i
    }
}

/// Scanning left from `i`: the index just after the last non-whitespace
/// character strictly before `i`, or `0` if all of them are whitespace.
pub open spec fn ws_rend(s: Seq<char>, i: int) -> int
    decreases i when 0 <= i <= s.len()
{
    if i <= 0 {
        0
    } else if is_ws(s[i - 1]) {
        ws_rend(s, i - 1)
    } else {
        i
    }
}

pub proof fn lemma_tab_end(s: Seq<char>, i: int)
    requires
        0 <= i <= s.len(),
    ensures
        i <= tab_end(s, i) <= s.len(),
        forall|j: int| i <= j < tab_end(s, i) ==> s[j] != '\t',
        tab_end(s, i) < s.len() ==> s[tab_end(s, i)] == '\t',
    decreases s.len() - i,
{
    if i < s.len() && s[i] != '\t' {
        lemma_tab_end(s, i + 1);
    }
}

pub proof fn lemma_digit_end(s: Seq<char>, i: int)
    requires
        0 <= i <= s.len(),
    ensures
        i <= digit_end(s, i) <= s.len(),
        forall|j: int| i <= j < digit_end(s, i) ==> is_digit(s[j]),
        digit_end(s, i) < s.len() ==> !is_digit(s[digit_end(s, i)]),
    decreases s.len() - i,
{
    if i < s.len() && is_digit(s[i]) {
        lemma_digit_end(s, i + 1);
    }
}

/// A non-empty run of digits.
pub open spec fn is_digits1(s: Seq<char>) -> bool {
    s.len() >= 1 && forall|j: int| 0 <= j < s.len() ==> is_digit(s[j])
}

/// The shape `digits '.' digits` of the format's timestamp fields.
pub open spec fn is_decimal(s: Seq<char>) -> bool {
    let d = digit_end(s, 0);
    &&& 0 < d < s.len()
    &&& s[d] == '.'
    &&& d + 1 < s.len()
    &&& digit_end(s, d + 1) == s.len()
}

/// Value of a digit run read as a base-10 number.
pub open spec fn digits_val(s: Seq<char>) -> int
    decreases s.len(),
{
    if s.len() == 0 {
        0
    } else {
        digits_val(s.drop_last()) * 10 + digit_val(s.last())
    }
}

/// What `str::parse::<u32>` yields on a field: the digits' value when the
/// field is a non-empty digit run whose value fits in a `u32`.
pub open spec fn parse_u32_spec(s: Seq<char>) -> Option<u32> {
    if is_digits1(s) && digits_val(s) <= u32::MAX {
        Some(digits_val(s) as u32)
    } else {
        None
    }
}

pub proof fn lemma_digits_val_nonneg(s: Seq<char>)
    requires
        forall|j: int| 0 <= j < s.len() ==> is_digit(s[j]),
    ensures
        digits_val(s) >= 0,
    decreases s.len(),
{
    if s.len() > 0 {
        lemma_digits_val_nonneg(s.drop_last());
    }
}

pub proof fn lemma_digits_val_mono(s: Seq<char>, i: int)
    requires
        0 <= i <= s.len(),
        forall|j: int| 0 <= j < s.len() ==> is_digit(s[j]),
    ensures
        digits_val(s.subrange(0, i)) <= digits_val(s),
    decreases s.len() - i,
{
    if i < s.len() {
        lemma_digits_val_nonneg(s.subrange(0, i));
        assert(s.subrange(0, i + 1).drop_last() =~= s.subrange(0, i));
        lemma_digits_val_mono(s, i + 1);
    } else {
        assert(s.subrange(0, i) =~= s);
    }
}

/// Exec test for [`is_digit`].
pub fn digit(c: char) -> (b: bool)
    ensures
        b == is_digit(c),
{
    let u = c as u32;
    48 <= u && u <= 57
}

/// Exec test for [`is_ws`].
pub fn ws(c: char) -> (b: bool)
    ensures
        b == is_ws(c),
{
    c == ' ' || c == '\t' || c == '\n' || c == '\r' || c == '\u{b}' || c == '\u{c}'
}

/// Exec scan for [`tab_end`].
pub fn find_tab(s: &str, from: usize) -> (r: usize)
    requires
        from <= s@.len(),
    ensures
        r == tab_end(s@, from as int),
        from <= r <= s@.len(),
{
    let len = s.unicode_len();
    let mut i = from;
    while i < len
        invariant
            from <= i <= len,
            len == s@.len(),
            tab_end(s@, from as int) == tab_end(s@, i as int),
        decreases len - i,
    {
        if s.get_char(i) == '\t' {
            return i;
        }
        i = i + 1;
    }
    i
}

/// Exec scan for [`digit_end`].
pub fn skip_digits(s: &str, from: usize) -> (r: usize)
    requires
        from <= s@.len(),
    ensures
        r == digit_end(s@, from as int),
        from <= r <= s@.len(),
{
    let len = s.unicode_len();
    let mut i = from;
    while i < len
        invariant
            from <= i <= len,
            len == s@.len(),
            digit_end(s@, from as int) == digit_end(s@, i as int),
        decreases len - i,
    {
        if !digit(s.get_char(i)) {
            return i;
        }
        i = i + 1;
    }
    i
}

/// Exec scan for [`ws_end`].
pub fn skip_ws(s: &str, from: usize) -> (r: usize)
    requires
        from <= s@.len(),
    ensures
        r == ws_end(s@, from as int),
        from <= r <= s@.len(),
{
    let len = s.unicode_len();
    let mut i = from;
    while i < len
        invariant
            from <= i <= len,
            len == s@.len(),
            ws_end(s@, from as int) == ws_end(s@, i as int),
        decreases len - i,
    {
        if !ws(s.get_char(i)) {
            return i;
        }
        i = i + 1;
    }
    i
}

/// Exec scan for [`ws_rend`].
pub fn rskip_ws(s: &str, from: usize) -> (r: usize)
    requires
        from <= s@.len(),
    ensures
        r == ws_rend(s@, from as int),
        r <= from,
{
    let mut i = from;
    while i > 0
        invariant
            0 <= i <= from,
            from <= s@.len(),
            ws_rend(s@, from as int) == ws_rend(s@, i as int),
        decreases i,
    {
        if !ws(s.get_char(i - 1)) {
            return i;
        }
        i = i - 1;
    }
    i
}

/// Exec test for [`is_digits1`] on a whole string.
pub fn all_digits1(s: &str) -> (b: bool)
    ensures
        b == is_digits1(s@),
{
    let len = s.unicode_len();
    let r = skip_digits(s, 0);
    proof {
        lemma_digit_end(s@, 0);
    }
    len >= 1 && r == len
}

/// Exec test for [`is_decimal`] on a whole string.
pub fn decimal(s: &str) -> (b: bool)
    ensures
        b == is_decimal(s@),
{
    let len = s.unicode_len();
    let d = skip_digits(s, 0);
    if 0 < d && d < len && s.get_char(d) == '.' && d + 1 < len {
        let e = skip_digits(s, d + 1);
        e == len
    } else {
        false
    }
}

/// Exec parse for [`parse_u32_spec`] on a whole string.
pub fn parse_u32_str(s: &str) -> (r: Option<u32>)
    ensures
        r == parse_u32_spec(s@),
{
    let len = s.unicode_len();
    if len == 0 {
        return None;
    }
    let mut acc: u64 = 0;
    let mut i: usize = 0;
    while i < len
        invariant
            0 <= i <= len,
            len == s@.len(),
            forall|j: int| 0 <= j < i ==> is_digit(s@[j]),
            acc == digits_val(s@.subrange(0, i as int)),
            acc <= u32::MAX as u64,
        decreases len - i,
    {
        let c = s.get_char(i);
        let u = c as u32;
        if !(48 <= u && u <= 57) {
            return None;
        }
        let d: u64 = (u - 48) as u64;
        let n: u64 = acc * 10 + d;
        proof {
            assert(s@.subrange(0, i + 1).drop_last() =~= s@.subrange(0, i as int));
        }
        if n > 0xFFFF_FFFFu64 {
            proof {
                if is_digits1(s@) {
                    lemma_digits_val_mono(s@, i + 1);
                }
            }
            return None;
        }
        acc = n;
        i = i + 1;
    }
    proof {
        assert(s@.subrange(0, len as int) =~= s@);
    }
    Some(acc as u32)
}

} // verus!
