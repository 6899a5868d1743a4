//! Line pattern registry: the fixed, ordered set of line shapes of the
//! trace format, and the classification of a raw line into the first
//! matching kind.

use vstd::prelude::*;

use crate::chars::digit;
use crate::chars::digit_end;
use crate::chars::is_decimal;
use crate::chars::is_digit;
use crate::chars::is_digits1;
use crate::chars::is_ws;
use crate::chars::lemma_tab_end;
use crate::chars::skip_digits;
use crate::chars::skip_ws;
use crate::chars::tab_end;
use crate::chars::ws;
use crate::chars::ws_end;
use crate::chars::all_digits1;
use crate::chars::decimal;
use crate::chars::find_tab;

verus! {

/// The record kinds a raw line can be classified as, one per pattern.
///
/// Classification tries the patterns in the fixed order `Version`,
/// `Format`, `Start`, `FunctionEntry`, `FunctionExit`, `Penultimate`,
/// `End`; the first kind whose pattern matches is selected.
#[derive(Clone, Copy, Debug, PartialEq, Eq, Structural)]
pub enum LineRegex {
    Version,
    Format,
    Start,
    FunctionEntry,
    FunctionExit,
    End,
    Penultimate,
}

impl LineRegex {
    /// The pattern each kind owns, in regular-expression notation.
    /// These strings document the line shapes; matching itself is done by
    /// the verified functions of this module.
    pub open spec fn pattern(self) -> Seq<char> {
        match self {
            LineRegex::Version => r"Version:\s+(?P<version>\d+\.\d+\.\d+).*"@,
            LineRegex::Format => r"^File format: (?P<format>\d+)"@,
            LineRegex::Start => r"^TRACE START \[(?P<start>\d{4}-\d{2}-\d{2} \d{2}:\d{2}:\d{2}.\d+)\]"@,
            LineRegex::FunctionEntry => r"^(\d+)\t(\d+)\t(0)\t(\d+\.\d+)\t(\d+)\t(.*)\t([01])\t(.*)\t(.*)\t(\d+)\t(\d+)\t?(.*)"@,
            LineRegex::FunctionExit => r"^(\d+)\t(\d+)\t(1)\t(\d+\.\d+)\t(\d+).*"@,
            LineRegex::Penultimate => r"^\s+(?P<time_idx>\d+\.\d+)\t(?P<mem_usage>\d+)"@,
            LineRegex::End => r"^TRACE END\s+\[(?P<end>\d{4}-\d{2}-\d{2} \d{2}:\d{2}:\d{2}.\d+)\]"@,
        }
    }

    /// The regular-expression text of this kind's pattern.
    pub fn regex_str(&self) -> (r: &'static str)
        ensures
            r@ == self.pattern(),
    {
        match self {
            LineRegex::Version => r"Version:\s+(?P<version>\d+\.\d+\.\d+).*",
            LineRegex::Format => r"^File format: (?P<format>\d+)",
            LineRegex::Start => r"^TRACE START \[(?P<start>\d{4}-\d{2}-\d{2} \d{2}:\d{2}:\d{2}.\d+)\]",
            LineRegex::FunctionEntry => r"^(\d+)\t(\d+)\t(0)\t(\d+\.\d+)\t(\d+)\t(.*)\t([01])\t(.*)\t(.*)\t(\d+)\t(\d+)\t?(.*)",
            LineRegex::FunctionExit => r"^(\d+)\t(\d+)\t(1)\t(\d+\.\d+)\t(\d+).*",
            LineRegex::Penultimate => r"^\s+(?P<time_idx>\d+\.\d+)\t(?P<mem_usage>\d+)",
            LineRegex::End => r"^TRACE END\s+\[(?P<end>\d{4}-\d{2}-\d{2} \d{2}:\d{2}:\d{2}.\d+)\]",
        }
    }
}

/// The tab-separated fields of `s` from position `p` on: the maximal
/// decomposition of the suffix at separator tabs.  Every string has at
/// least one (possibly empty) field.
pub open spec fn fields_from(s: Seq<char>, p: int) -> Seq<Seq<char>>
    decreases s.len() - p when 0 <= p <= s.len() via fields_from_dec
{
    let e = tab_end(s, p);
    if e >= s.len() {
        seq![s.subrange(p, s.len() as int)]
    } else {
        seq![s.subrange(p, e)] + fields_from(s, e + 1)
    }
}

#[via_fn]
proof fn fields_from_dec(s: Seq<char>, p: int) {
    lemma_tab_end(s, p);
}

/// The fields of the whole line.
pub open spec fn fields(s: Seq<char>) -> Seq<Seq<char>> {
    fields_from(s, 0)
}

/// `Version`: the line contains `Version:` followed by whitespace and a
/// `major.minor.patch` numeric triple, starting at position `i`.
pub open spec fn version_at(s: Seq<char>, i: int) -> bool {
    &&& 0 <= i
    &&& i + 8 <= s.len()
    &&& s[i] == 'V' && s[i + 1] == 'e' && s[i + 2] == 'r' && s[i + 3] == 's'
    &&& s[i + 4] == 'i' && s[i + 5] == 'o' && s[i + 6] == 'n' && s[i + 7] == ':'
    &&& {
        let w = ws_end(s, i + 8);
        let d1 = digit_end(s, w);
        &&& w > i + 8
        &&& d1 > w
        &&& d1 < s.len() && s[d1] == '.'
        &&& {
            let d2 = digit_end(s, d1 + 1);
            &&& d2 > d1 + 1
            &&& d2 < s.len() && s[d2] == '.'
            &&& digit_end(s, d2 + 1) > d2 + 1
        }
    }
}

/// The leftmost position at or after `i` where the version pattern matches.
pub open spec fn version_scan(s: Seq<char>, i: int) -> Option<int>
    decreases s.len() - i when 0 <= i <= s.len()
{
    if i >= s.len() {
        None
    } else if version_at(s, i) {
        Some(i)
    } else {
        version_scan(s, i + 1)
    }
}

pub open spec fn matches_version(s: Seq<char>) -> bool {
    version_scan(s, 0) is Some
}

/// The captured `major.minor.patch` triple at a match position.
pub open spec fn version_capture_at(s: Seq<char>, i: int) -> Seq<char> {
    let w = ws_end(s, i + 8);
    let d1 = digit_end(s, w);
    let d2 = digit_end(s, d1 + 1);
    let d3 = digit_end(s, d2 + 1);
    s.subrange(w, d3)
}

/// The version text the `Version` decoder extracts, at the leftmost match.
pub open spec fn decode_version(s: Seq<char>) -> Option<Seq<char>> {
    match version_scan(s, 0) {
        Some(i) => Some(version_capture_at(s, i)),
        None => None,
    }
}

/// `Format`: the line begins with `File format: ` followed by an integer.
pub open spec fn matches_format(s: Seq<char>) -> bool {
    &&& s.len() >= 14
    &&& s[0] == 'F' && s[1] == 'i' && s[2] == 'l' && s[3] == 'e' && s[4] == ' '
    &&& s[5] == 'f' && s[6] == 'o' && s[7] == 'r' && s[8] == 'm' && s[9] == 'a'
    &&& s[10] == 't' && s[11] == ':' && s[12] == ' '
    &&& is_digit(s[13])
}

/// The captured format digits: the maximal digit run after the prefix.
pub open spec fn format_capture(s: Seq<char>) -> Seq<char> {
    s.subrange(13, digit_end(s, 13))
}

/// A `YYYY-MM-DD HH:MM:SS` timestamp head starting at `p`, followed by one
/// separator character and at least one fraction digit.
pub open spec fn ts_shape_at(s: Seq<char>, p: int) -> bool {
    &&& 0 <= p && p + 21 <= s.len()
    &&& is_digit(s[p]) && is_digit(s[p + 1]) && is_digit(s[p + 2]) && is_digit(s[p + 3])
    &&& s[p + 4] == '-' && is_digit(s[p + 5]) && is_digit(s[p + 6])
    &&& s[p + 7] == '-' && is_digit(s[p + 8]) && is_digit(s[p + 9])
    &&& s[p + 10] == ' ' && is_digit(s[p + 11]) && is_digit(s[p + 12])
    &&& s[p + 13] == ':' && is_digit(s[p + 14]) && is_digit(s[p + 15])
    &&& s[p + 16] == ':' && is_digit(s[p + 17]) && is_digit(s[p + 18])
    &&& s[p + 19] != '\n'
    &&& is_digit(s[p + 20])
}

/// End of the timestamp: the maximal fraction digit run.
pub open spec fn ts_stop(s: Seq<char>, p: int) -> int {
    digit_end(s, p + 20)
}

/// `Start`: the line begins with `TRACE START [`, a timestamp, and `]`.
pub open spec fn matches_start(s: Seq<char>) -> bool {
    &&& s.len() >= 13
    &&& s[0] == 'T' && s[1] == 'R' && s[2] == 'A' && s[3] == 'C' && s[4] == 'E'
    &&& s[5] == ' ' && s[6] == 'S' && s[7] == 'T' && s[8] == 'A' && s[9] == 'R'
    &&& s[10] == 'T' && s[11] == ' ' && s[12] == '['
    &&& ts_shape_at(s, 13)
    &&& ts_stop(s, 13) < s.len() && s[ts_stop(s, 13)] == ']'
}

/// The captured start timestamp text.
pub open spec fn start_capture(s: Seq<char>) -> Seq<char> {
    s.subrange(13, ts_stop(s, 13))
}

pub open spec fn decode_start(s: Seq<char>) -> Option<Seq<char>> {
    if matches_start(s) {
        Some(start_capture(s))
    } else {
        None
    }
}

/// `End`: the line begins with `TRACE END`, whitespace, `[`, a timestamp
/// and `]`.
pub open spec fn matches_end(s: Seq<char>) -> bool {
    &&& s.len() >= 9
    &&& s[0] == 'T' && s[1] == 'R' && s[2] == 'A' && s[3] == 'C' && s[4] == 'E'
    &&& s[5] == ' ' && s[6] == 'E' && s[7] == 'N' && s[8] == 'D'
    &&& {
        let w = ws_end(s, 9);
        &&& w > 9
        &&& w < s.len() && s[w] == '['
        &&& ts_shape_at(s, w + 1)
        &&& ts_stop(s, w + 1) < s.len() && s[ts_stop(s, w + 1)] == ']'
    }
}

/// `FunctionEntry`: tab-delimited fields `depth`, invocation id, the
/// literal `0`, timestamp, memory, name, type tag, including file, calling
/// file, line number, and an argument count opening the trailing argument
/// text.  The fields are positional: the name and file-name fields are
/// free text that itself contains no tabs.
pub open spec fn matches_entry(s: Seq<char>) -> bool {
    let fs = fields(s);
    &&& fs.len() >= 11
    &&& is_digits1(fs[0])
    &&& is_digits1(fs[1])
    &&& fs[2].len() == 1 && fs[2][0] == '0'
    &&& is_decimal(fs[3])
    &&& is_digits1(fs[4])
    &&& fs[6].len() == 1 && (fs[6][0] == '0' || fs[6][0] == '1')
    &&& is_digits1(fs[9])
    &&& fs[10].len() >= 1 && is_digit(fs[10][0])
}

/// `FunctionExit`: fields `depth`, invocation id, the literal `1`,
/// timestamp and memory; trailing content is ignored.
pub open spec fn matches_exit(s: Seq<char>) -> bool {
    let fs = fields(s);
    &&& fs.len() >= 5
    &&& is_digits1(fs[0])
    &&& is_digits1(fs[1])
    &&& fs[2].len() == 1 && fs[2][0] == '1'
    &&& is_decimal(fs[3])
    &&& fs[4].len() >= 1 && is_digit(fs[4][0])
}

/// `Penultimate`: leading whitespace, a timestamp value, a tab, and a
/// memory value — a format artifact with no entry/exit semantics.
pub open spec fn matches_penultimate(s: Seq<char>) -> bool {
    &&& s.len() > 0
    &&& is_ws(s[0])
    &&& {
        let w = ws_end(s, 0);
        let d1 = digit_end(s, w);
        &&& d1 > w
        &&& d1 < s.len() && s[d1] == '.'
        &&& {
            let d2 = digit_end(s, d1 + 1);
            &&& d2 > d1 + 1
            &&& d2 < s.len() && s[d2] == '\t'
            &&& digit_end(s, d2 + 1) > d2 + 1
        }
    }
}

/// Classification: the first kind, in the registry's fixed order, whose
/// pattern matches, or `None` when no pattern matches.  A line is one
/// raw line of the trace file: any newline it carries is trailing.
pub open spec fn classify(s: Seq<char>) -> Option<LineRegex> {
    if matches_version(s) {
        Some(LineRegex::Version)
    } else if matches_format(s) {
        Some(LineRegex::Format)
    } else if matches_start(s) {
        Some(LineRegex::Start)
    } else if matches_entry(s) {
        Some(LineRegex::FunctionEntry)
    } else if matches_exit(s) {
        Some(LineRegex::FunctionExit)
    } else if matches_penultimate(s) {
        Some(LineRegex::Penultimate)
    } else if matches_end(s) {
        Some(LineRegex::End)
    } else {
        None
    }
}

/// Exec test for [`version_at`].
fn version_at_exec(s: &str, i: usize) -> (b: bool)
    requires
        i <= s@.len(),
    ensures
        b == version_at(s@, i as int),
{
    let len = s.unicode_len();
    if len < 8 || i > len - 8 {
        return false;
    }
    if !(s.get_char(i) == 'V' && s.get_char(i + 1) == 'e' && s.get_char(i + 2) == 'r'
        && s.get_char(i + 3) == 's' && s.get_char(i + 4) == 'i' && s.get_char(i + 5) == 'o'
        && s.get_char(i + 6) == 'n' && s.get_char(i + 7) == ':') {
        return false;
    }
    let w = skip_ws(s, i + 8);
    if !(w > i + 8) {
        return false;
    }
    let d1 = skip_digits(s, w);
    if !(d1 > w && d1 < len && s.get_char(d1) == '.') {
        return false;
    }
    let d2 = skip_digits(s, d1 + 1);
    if !(d2 > d1 + 1 && d2 < len && s.get_char(d2) == '.') {
        return false;
    }
    let d3 = skip_digits(s, d2 + 1);
    d3 > d2 + 1
}

/// Exec scan for the leftmost version match; returns the capture bounds.
pub fn version_find(s: &str) -> (r: Option<(usize, usize)>)
    ensures
        r is Some <==> matches_version(s@),
        r matches Some(b) ==> {
            &&& b.0 <= b.1 <= s@.len()
            &&& decode_version(s@) == Some(s@.subrange(b.0 as int, b.1 as int))
        },
{
    let len = s.unicode_len();
    let mut i: usize = 0;
    while i < len
        invariant
            0 <= i <= len,
            len == s@.len(),
            version_scan(s@, 0) == version_scan(s@, i as int),
        decreases len - i,
    {
        if version_at_exec(s, i) {
            let w = skip_ws(s, i + 8);
            let d1 = skip_digits(s, w);
            let d2 = skip_digits(s, d1 + 1);
            let d3 = skip_digits(s, d2 + 1);
            return Some((w, d3));
        }
        i = i + 1;
    }
    None
}

/// Exec test for [`matches_format`]; returns the capture bounds.
pub fn format_find(s: &str) -> (r: Option<(usize, usize)>)
    ensures
        r is Some <==> matches_format(s@),
        r matches Some(b) ==> {
            &&& b.0 <= b.1 <= s@.len()
            &&& format_capture(s@) == s@.subrange(b.0 as int, b.1 as int)
        },
{
    let len = s.unicode_len();
    if !(len >= 14) {
        return None;
    }
    if !(s.get_char(0) == 'F' && s.get_char(1) == 'i' && s.get_char(2) == 'l'
        && s.get_char(3) == 'e' && s.get_char(4) == ' ' && s.get_char(5) == 'f'
        && s.get_char(6) == 'o' && s.get_char(7) == 'r' && s.get_char(8) == 'm'
        && s.get_char(9) == 'a' && s.get_char(10) == 't' && s.get_char(11) == ':'
        && s.get_char(12) == ' ') {
        return None;
    }
    if !digit(s.get_char(13)) {
        return None;
    }
    let e = skip_digits(s, 13);
    Some((13, e))
}

/// Exec test for [`ts_shape_at`].
fn ts_shape_exec(s: &str, p: usize) -> (b: bool)
    requires
        p <= s@.len(),
    ensures
        b == ts_shape_at(s@, p as int),
{
    let len = s.unicode_len();
    if len < 21 || p > len - 21 {
        return false;
    }
    digit(s.get_char(p)) && digit(s.get_char(p + 1)) && digit(s.get_char(p + 2))
        && digit(s.get_char(p + 3)) && s.get_char(p + 4) == '-' && digit(s.get_char(p + 5))
        && digit(s.get_char(p + 6)) && s.get_char(p + 7) == '-' && digit(s.get_char(p + 8))
        && digit(s.get_char(p + 9)) && s.get_char(p + 10) == ' ' && digit(s.get_char(p + 11))
        && digit(s.get_char(p + 12)) && s.get_char(p + 13) == ':' && digit(s.get_char(p + 14))
        && digit(s.get_char(p + 15)) && s.get_char(p + 16) == ':' && digit(s.get_char(p + 17))
        && digit(s.get_char(p + 18)) && s.get_char(p + 19) != '\n' && digit(s.get_char(p + 20))
}

/// Exec test for [`matches_start`]; returns the capture bounds.
pub fn start_find(s: &str) -> (r: Option<(usize, usize)>)
    ensures
        r is Some <==> matches_start(s@),
        r matches Some(b) ==> {
            &&& b.0 <= b.1 <= s@.len()
            &&& decode_start(s@) == Some(s@.subrange(b.0 as int, b.1 as int))
        },
{
    let len = s.unicode_len();
    if !(len >= 13) {
        return None;
    }
    if !(s.get_char(0) == 'T' && s.get_char(1) == 'R' && s.get_char(2) == 'A'
        && s.get_char(3) == 'C' && s.get_char(4) == 'E' && s.get_char(5) == ' '
        && s.get_char(6) == 'S' && s.get_char(7) == 'T' && s.get_char(8) == 'A'
        && s.get_char(9) == 'R' && s.get_char(10) == 'T' && s.get_char(11) == ' '
        && s.get_char(12) == '[') {
        return None;
    }
    if !ts_shape_exec(s, 13) {
        return None;
    }
    let stop = skip_digits(s, 13 + 20);
    if stop < len && s.get_char(stop) == ']' {
        Some((13, stop))
    } else {
        None
    }
}

/// Exec test for [`matches_end`].
fn end_match(s: &str) -> (b: bool)
    ensures
        b == matches_end(s@),
{
    let len = s.unicode_len();
    if !(len >= 9) {
        return false;
    }
    if !(s.get_char(0) == 'T' && s.get_char(1) == 'R' && s.get_char(2) == 'A'
        && s.get_char(3) == 'C' && s.get_char(4) == 'E' && s.get_char(5) == ' '
        && s.get_char(6) == 'E' && s.get_char(7) == 'N' && s.get_char(8) == 'D') {
        return false;
    }
    let w = skip_ws(s, 9);
    if !(w > 9 && w < len && s.get_char(w) == '[') {
        return false;
    }
    if !ts_shape_exec(s, w + 1) {
        return false;
    }
    let stop = skip_digits(s, w + 1 + 20);
    stop < len && s.get_char(stop) == ']'
}

/// Exec test for [`matches_penultimate`].
fn penultimate_match(s: &str) -> (b: bool)
    ensures
        b == matches_penultimate(s@),
{
    let len = s.unicode_len();
    if !(len > 0) {
        return false;
    }
    if !ws(s.get_char(0)) {
        return false;
    }
    let w = skip_ws(s, 0);
    let d1 = skip_digits(s, w);
    if !(d1 > w && d1 < len && s.get_char(d1) == '.') {
        return false;
    }
    let d2 = skip_digits(s, d1 + 1);
    if !(d2 > d1 + 1 && d2 < len && s.get_char(d2) == '\t') {
        return false;
    }
    let d3 = skip_digits(s, d2 + 1);
    d3 > d2 + 1
}

/// Exec computation of the field boundaries of `s`, matching [`fields`].
pub fn split_fields(s: &str) -> (r: Vec<(usize, usize)>)
    ensures
        r@.len() == fields(s@).len(),
        forall|k: int| 0 <= k < r@.len() ==> (#[trigger] r@[k]).0 <= r@[k].1 <= s@.len(),
        forall|k: int|
            0 <= k < r@.len() ==> fields(s@)[k] == s@.subrange(
                (#[trigger] r@[k]).0 as int,
                r@[k].1 as int,
            ),
{
    let len = s.unicode_len();
    let mut r: Vec<(usize, usize)> = Vec::new();
    let mut p: usize = 0;
    loop
        invariant_except_break
            p <= len,
            len == s@.len(),
            fields(s@) =~= r@.map_values(|b: (usize, usize)| s@.subrange(b.0 as int, b.1 as int))
                + fields_from(s@, p as int),
            forall|k: int| 0 <= k < r@.len() ==> (#[trigger] r@[k]).0 <= r@[k].1 <= s@.len(),
        ensures
            fields(s@) =~= r@.map_values(|b: (usize, usize)| s@.subrange(b.0 as int, b.1 as int)),
            forall|k: int| 0 <= k < r@.len() ==> (#[trigger] r@[k]).0 <= r@[k].1 <= s@.len(),
        decreases len - p + 1,
    {
        let e = find_tab(s, p);
        let ghost old_r = r@;
        r.push((p, e));
        proof {
            assert(r@.map_values(|b: (usize, usize)| s@.subrange(b.0 as int, b.1 as int)) =~=
                old_r.map_values(|b: (usize, usize)| s@.subrange(b.0 as int, b.1 as int))
                    + seq![s@.subrange(p as int, e as int)]);
        }
        if e < len {
            p = e + 1;
        } else {
            proof {
                assert(fields_from(s@, p as int) =~= seq![s@.subrange(p as int, s@.len() as int)]);
                assert(s@.subrange(p as int, e as int) =~= s@.subrange(p as int, s@.len() as int));
            }
            break;
        }
    }
    r
}

/// Exec test for [`matches_entry`].
fn entry_match(s: &str) -> (b: bool)
    ensures
        b == matches_entry(s@),
{
    let fs = split_fields(s);
    if fs.len() < 11 {
        return false;
    }
    let f0 = s.substring_char(fs[0].0, fs[0].1);
    let f1 = s.substring_char(fs[1].0, fs[1].1);
    let f2 = s.substring_char(fs[2].0, fs[2].1);
    let f3 = s.substring_char(fs[3].0, fs[3].1);
    let f4 = s.substring_char(fs[4].0, fs[4].1);
    let f6 = s.substring_char(fs[6].0, fs[6].1);
    let f9 = s.substring_char(fs[9].0, fs[9].1);
    let f10 = s.substring_char(fs[10].0, fs[10].1);
    all_digits1(f0) && all_digits1(f1)
        && f2.unicode_len() == 1 && f2.get_char(0) == '0'
        && decimal(f3) && all_digits1(f4)
        && f6.unicode_len() == 1 && (f6.get_char(0) == '0' || f6.get_char(0) == '1')
        && all_digits1(f9)
        && f10.unicode_len() >= 1 && digit(f10.get_char(0))
}

/// Exec test for [`matches_exit`].
fn exit_match(s: &str) -> (b: bool)
    ensures
        b == matches_exit(s@),
{
    let fs = split_fields(s);
    if fs.len() < 5 {
        return false;
    }
    let f0 = s.substring_char(fs[0].0, fs[0].1);
    let f1 = s.substring_char(fs[1].0, fs[1].1);
    let f2 = s.substring_char(fs[2].0, fs[2].1);
    let f3 = s.substring_char(fs[3].0, fs[3].1);
    let f4 = s.substring_char(fs[4].0, fs[4].1);
    all_digits1(f0) && all_digits1(f1)
        && f2.unicode_len() == 1 && f2.get_char(0) == '1'
        && decimal(f3)
        && f4.unicode_len() >= 1 && digit(f4.get_char(0))
}

/// Classify one raw line: the first kind, in the registry's fixed order,
/// whose pattern matches.
pub fn classify_line(s: &str) -> (r: Option<LineRegex>)
    ensures
        r == classify(s@),
{
    if version_find(s).is_some() {
        Some(LineRegex::Version)
    } else if format_find(s).is_some() {
        Some(LineRegex::Format)
    } else if start_find(s).is_some() {
        Some(LineRegex::Start)
    } else if entry_match(s) {
        Some(LineRegex::FunctionEntry)
    } else if exit_match(s) {
        Some(LineRegex::FunctionExit)
    } else if penultimate_match(s) {
        Some(LineRegex::Penultimate)
    } else if end_match(s) {
        Some(LineRegex::End)
    } else {
        None
    }
}

} // verus!
