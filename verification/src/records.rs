//! Record decoders: one typed record per line kind, each decoding the
//! fields of a line already classified as that kind.
//!
//! Decoding works on the whitespace-trimmed line, split at tabs; a field
//! that fails its type conversion makes the whole decode fail, which the
//! driver treats as fatal.

use vstd::prelude::*;

use crate::chars::decimal;
use crate::chars::is_decimal;
use crate::chars::parse_u32_spec;
use crate::chars::parse_u32_str;
use crate::chars::rskip_ws;
use crate::chars::skip_ws;
use crate::chars::ws_end;
use crate::chars::ws_rend;
use crate::classify::decode_start;
use crate::classify::decode_version;
use crate::classify::fields;
use crate::classify::format_capture;
use crate::classify::matches_format;
use crate::classify::matches_start;
use crate::classify::matches_version;
use crate::classify::split_fields;
use crate::classify::start_find;
use crate::classify::version_find;
use crate::classify::format_find;

verus! {

/// The line's leading and trailing whitespace removed.
pub open spec fn trim_spec(s: Seq<char>) -> Seq<char> {
    let lo = ws_end(s, 0);
    let hi = ws_rend(s, s.len() as int);
    if lo <= hi {
        s.subrange(lo, hi)
    } else {
        Seq::empty()
    }
}

/// Exec trim matching [`trim_spec`].
pub fn trim_str<'a>(s: &'a str) -> (r: &'a str)
    ensures
        r@ == trim_spec(s@),
{
    let len = s.unicode_len();
    let lo = skip_ws(s, 0);
    let hi = rskip_ws(s, len);
    if lo <= hi {
        s.substring_char(lo, hi)
    } else {
        let e = "";
        proof {
            reveal_strlit("");
            assert(e@ =~= trim_spec(s@));
        }
        e
    }
}

/// A parse failure that ends the whole parse.
#[derive(Clone, Debug)]
pub enum ParseError {
    /// A line matched a pattern but a captured field failed its type
    /// conversion.
    UnparseableField { line: String },
    /// The format header named a version outside the supported set.
    UnsupportedFormat { found: String },
}

pub enum ParseErrorV {
    UnparseableField { line: Seq<char> },
    UnsupportedFormat { found: Seq<char> },
}

impl View for ParseError {
    type V = ParseErrorV;

    open spec fn view(&self) -> ParseErrorV {
        match self {
            ParseError::UnparseableField { line } => (ParseErrorV::UnparseableField {
                line: line@,
            }),
            ParseError::UnsupportedFormat { found } => (ParseErrorV::UnsupportedFormat {
                found: found@,
            }),
        }
    }
}

/// The tool version line's record: the captured `major.minor.patch` text,
/// kept verbatim.
#[derive(Clone, Debug)]
pub struct XtraceVersionRecord {
    pub version: String,
}

impl XtraceVersionRecord {
    /// Decode a tool version line; `None` when the pattern does not match.
    pub fn new(line: &str) -> (r: Option<XtraceVersionRecord>)
        ensures
            r is Some <==> matches_version(line@),
            r matches Some(rec) ==> Some(rec.version@) == decode_version(line@),
    {
        match version_find(line) {
            Some((lo, hi)) => {
                let v = line.substring_char(lo, hi);
                Some(XtraceVersionRecord { version: v.to_owned() })
            },
            None => None,
        }
    }
}

/// The start timestamp line's record: the raw timestamp text, kept
/// verbatim; no calendar parsing is performed.
#[derive(Clone, Debug)]
pub struct XtraceStartTimeRecord {
    pub start_time: String,
}

impl XtraceStartTimeRecord {
    /// Decode a start timestamp line; `None` when the pattern does not match.
    pub fn new(line: &str) -> (r: Option<XtraceStartTimeRecord>)
        ensures
            r is Some <==> matches_start(line@),
            r matches Some(rec) ==> Some(rec.start_time@) == decode_start(line@),
    {
        match start_find(line) {
            Some((lo, hi)) => {
                let v = line.substring_char(lo, hi);
                Some(XtraceStartTimeRecord { start_time: v.to_owned() })
            },
            None => None,
        }
    }
}

/// The format versions this parser supports: exactly `4`.
pub open spec fn supported_format(d: Seq<char>) -> bool {
    d.len() == 1 && d[0] == '4'
}

/// The format header's record: the supported integer format version.
#[derive(Clone, Debug)]
pub struct XtraceFmtRecord {
    pub format: u32,
}

impl XtraceFmtRecord {
    /// Decode a format header line and validate the version against the
    /// supported set.  An unsupported version is fatal for the whole
    /// parse, not a skippable line.
    pub fn new(line: &str) -> (r: Result<XtraceFmtRecord, ParseError>)
        ensures
            !matches_format(line@) ==> (r matches Err(e) && e@ == (ParseErrorV::UnparseableField {
                line: line@,
            })),
            matches_format(line@) && supported_format(format_capture(line@)) ==> (r matches Ok(rec)
                && rec.format == 4),
            matches_format(line@) && !supported_format(format_capture(line@)) ==> (r matches Err(e)
                && e@ == (ParseErrorV::UnsupportedFormat { found: format_capture(line@) })),
    {
        match format_find(line) {
            Some((lo, hi)) => {
                let d = line.substring_char(lo, hi);
                if d.unicode_len() == 1 && d.get_char(0) == '4' {
                    Ok(XtraceFmtRecord { format: 4 })
                } else {
                    Err(ParseError::UnsupportedFormat { found: d.to_owned() })
                }
            },
            None => Err(ParseError::UnparseableField { line: line.to_owned() }),
        }
    }
}

/// The kind of function a call refers to, decoded from the entry line's
/// numeric type tag.
#[derive(Clone, Debug, PartialEq, Eq, Structural)]
pub enum FnType {
    Internal,
    User,
}

impl FnType {
    /// The function type a tag value denotes: `0` is `Internal`, `1` is
    /// `User`; any other value is an unparseable-field error, which the
    /// decoders report before calling here.
    pub fn from(num: u8) -> (r: FnType)
        requires
            num == 0 || num == 1,
        ensures
            num == 0 ==> r == FnType::Internal,
            num == 1 ==> r == FnType::User,
    {
        if num == 0 {
            FnType::Internal
        } else {
            FnType::User
        }
    }
}

/// Mathematical model of a decoded function-entry record.
pub struct EntryV {
    pub level: u32,
    pub fn_num: u32,
    pub time_idx: Seq<char>,
    pub mem_usage: u32,
    pub fn_name: Seq<char>,
    pub fn_type: FnType,
    pub inc_file_name: Seq<char>,
    pub file_name: Seq<char>,
    pub line_num: u32,
    pub arg_num: u32,
    pub args: Seq<Seq<char>>,
}

/// A decoded function-entry line: nesting depth, invocation identifier,
/// timestamp and memory at entry, function name and type, file names,
/// source line, declared argument count, and the raw argument fragments.
///
/// The timestamp is kept as its verbatim `digits.digits` text.
#[derive(Clone, Debug)]
pub struct XtraceEntryRecord {
    pub level: u32,
    pub fn_num: u32,
    pub time_idx: String,
    pub mem_usage: u32,
    pub fn_name: String,
    pub fn_type: FnType,
    pub inc_file_name: String,
    pub file_name: String,
    pub line_num: u32,
    pub arg_num: u32,
    pub args: Vec<String>,
}

impl View for XtraceEntryRecord {
    type V = EntryV;

    open spec fn view(&self) -> EntryV {
        EntryV {
            level: self.level,
            fn_num: self.fn_num,
            time_idx: self.time_idx@,
            mem_usage: self.mem_usage,
            fn_name: self.fn_name@,
            fn_type: self.fn_type,
            inc_file_name: self.inc_file_name@,
            file_name: self.file_name@,
            line_num: self.line_num,
            arg_num: self.arg_num,
            args: self.args.deep_view(),
        }
    }
}

/// What decoding an entry line yields: the trimmed line's tab-separated
/// fields, positionally converted; `None` if a numeric field fails to
/// parse, the type tag is not `0` or `1`, or the timestamp is not of the
/// shape `digits.digits`.  Fields after the argument count are the raw
/// argument fragments.
pub open spec fn decode_entry(line: Seq<char>) -> Option<EntryV> {
    let fs = fields(trim_spec(line));
    if fs.len() >= 11 {
        match (parse_u32_spec(fs[0]), parse_u32_spec(fs[1]), parse_u32_spec(fs[4]),
        parse_u32_spec(fs[6]), parse_u32_spec(fs[9]), parse_u32_spec(fs[10])) {
            (
                Some(level),
                Some(fn_num),
                Some(mem_usage),
                Some(tag),
                Some(line_num),
                Some(arg_num),
            ) => {
                if is_decimal(fs[3]) && (tag == 0 || tag == 1) {
                    Some(
                        EntryV {
                            level,
                            fn_num,
                            time_idx: fs[3],
                            mem_usage,
                            fn_name: fs[5],
                            fn_type: if tag == 0 {
                                FnType::Internal
                            } else {
                                FnType::User
                            },
                            inc_file_name: fs[7],
                            file_name: fs[8],
                            line_num,
                            arg_num,
                            args: fs.subrange(11, fs.len() as int),
                        },
                    )
                } else {
                    None
                }
            },
            _ => None,
        }
    } else {
        None
    }
}

impl XtraceEntryRecord {
    /// Decode a function-entry line; `None` when a field fails conversion.
    pub fn new(line: &str) -> (r: Option<XtraceEntryRecord>)
        ensures
            r is Some <==> decode_entry(line@) is Some,
            r matches Some(rec) ==> Some(rec@) == decode_entry(line@),
    {
        let t = trim_str(line);
        let fs = split_fields(t);
        if fs.len() < 11 {
            return None;
        }
        let level = match parse_u32_str(t.substring_char(fs[0].0, fs[0].1)) {
            Some(v) => v,
            None => { return None },
        };
        let fn_num = match parse_u32_str(t.substring_char(fs[1].0, fs[1].1)) {
            Some(v) => v,
            None => { return None },
        };
        let mem_usage = match parse_u32_str(t.substring_char(fs[4].0, fs[4].1)) {
            Some(v) => v,
            None => { return None },
        };
        let tag = match parse_u32_str(t.substring_char(fs[6].0, fs[6].1)) {
            Some(v) => v,
            None => { return None },
        };
        let line_num = match parse_u32_str(t.substring_char(fs[9].0, fs[9].1)) {
            Some(v) => v,
            None => { return None },
        };
        let arg_num = match parse_u32_str(t.substring_char(fs[10].0, fs[10].1)) {
            Some(v) => v,
            None => { return None },
        };
        let f3 = t.substring_char(fs[3].0, fs[3].1);
        if !decimal(f3) {
            return None;
        }
        let fn_type = if tag == 0 {
            FnType::Internal
        } else if tag == 1 {
            FnType::User
        } else {
            return None;
        };
        let mut args: Vec<String> = Vec::new();
        let mut k: usize = 11;
        while k < fs.len()
            invariant
                11 <= k <= fs.len(),
                fs@.len() == fields(t@).len(),
                forall|j: int| 0 <= j < fs@.len() ==> (#[trigger] fs@[j]).0 <= fs@[j].1 <= t@.len(),
                forall|j: int|
                    0 <= j < fs@.len() ==> fields(t@)[j] == t@.subrange(
                        (#[trigger] fs@[j]).0 as int,
                        fs@[j].1 as int,
                    ),
                args.deep_view() =~= fields(t@).subrange(11, k as int),
            decreases fs.len() - k,
        {
            let ghost pre_args = args@;
            let ghost pre_dv = args.deep_view();
            let a = t.substring_char(fs[k].0, fs[k].1);
            let s = a.to_owned();
            args.push(s);
            proof {
                assert(s@ == fields(t@)[k as int]);
                assert(args@ == pre_args.push(s));
                assert(args.deep_view().len() == args@.len());
                assert(pre_dv.len() == pre_args.len());
                assert(pre_args.len() == k - 11);
                assert forall|i: int| 0 <= i < args.deep_view().len() implies args.deep_view()[i]
                    == fields(t@).subrange(11, k as int + 1)[i] by {
                    assert(args.deep_view()[i] == args@[i].deep_view());
                    if i < pre_args.len() {
                        assert(args@[i] == pre_args[i]);
                        assert(pre_dv[i] == pre_args[i].deep_view());
                        assert(pre_dv[i] == fields(t@).subrange(11, k as int)[i]);
                        assert(fields(t@).subrange(11, k as int)[i] == fields(t@)[11 + i]);
                        assert(fields(t@).subrange(11, k as int + 1)[i] == fields(t@)[11 + i]);
                    } else {
                        assert(i == k - 11);
                        assert(args@[i] == s);
                        assert(args@[i].deep_view() == s@);
                        assert(fields(t@).subrange(11, k as int + 1)[i] == fields(t@)[k as int]);
                    }
                }
                assert(args.deep_view() =~= fields(t@).subrange(11, k as int + 1));
            }
            k = k + 1;
        }
        proof {
            assert(args.deep_view() =~= fields(t@).subrange(11, fields(t@).len() as int));
        }
        Some(
            XtraceEntryRecord {
                level,
                fn_num,
                time_idx: f3.to_owned(),
                mem_usage,
                fn_name: t.substring_char(fs[5].0, fs[5].1).to_owned(),
                fn_type,
                inc_file_name: t.substring_char(fs[7].0, fs[7].1).to_owned(),
                file_name: t.substring_char(fs[8].0, fs[8].1).to_owned(),
                line_num,
                arg_num,
                args,
            },
        )
    }
}

/// Mathematical model of a decoded function-exit record.
pub struct ExitV {
    pub level: u32,
    pub fn_num: u32,
    pub time_idx: Seq<char>,
    pub mem_usage: u32,
}

/// A decoded function-exit line: nesting depth, invocation identifier,
/// timestamp and memory at exit.  The timestamp is kept as its verbatim
/// `digits.digits` text.
#[derive(Clone, Debug)]
pub struct XtraceExitRecord {
    pub level: u32,
    pub fn_num: u32,
    pub time_idx: String,
    pub mem_usage: u32,
}

impl View for XtraceExitRecord {
    type V = ExitV;

    open spec fn view(&self) -> ExitV {
        ExitV {
            level: self.level,
            fn_num: self.fn_num,
            time_idx: self.time_idx@,
            mem_usage: self.mem_usage,
        }
    }
}

/// What decoding an exit line yields, positionally from the trimmed
/// line's first five fields.
pub open spec fn decode_exit(line: Seq<char>) -> Option<ExitV> {
    let fs = fields(trim_spec(line));
    if fs.len() >= 5 {
        match (parse_u32_spec(fs[0]), parse_u32_spec(fs[1]), parse_u32_spec(fs[4])) {
            (Some(level), Some(fn_num), Some(mem_usage)) => {
                if is_decimal(fs[3]) {
                    Some(ExitV { level, fn_num, time_idx: fs[3], mem_usage })
                } else {
                    None
                }
            },
            _ => None,
        }
    } else {
        None
    }
}

impl XtraceExitRecord {
    /// Decode a function-exit line; `None` when a field fails conversion.
    pub fn new(line: &str) -> (r: Option<XtraceExitRecord>)
        ensures
            r is Some <==> decode_exit(line@) is Some,
            r matches Some(rec) ==> Some(rec@) == decode_exit(line@),
    {
        let t = trim_str(line);
        let fs = split_fields(t);
        if fs.len() < 5 {
            return None;
        }
        let level = match parse_u32_str(t.substring_char(fs[0].0, fs[0].1)) {
            Some(v) => v,
            None => { return None },
        };
        let fn_num = match parse_u32_str(t.substring_char(fs[1].0, fs[1].1)) {
            Some(v) => v,
            None => { return None },
        };
        let mem_usage = match parse_u32_str(t.substring_char(fs[4].0, fs[4].1)) {
            Some(v) => v,
            None => { return None },
        };
        let f3 = t.substring_char(fs[3].0, fs[3].1);
        if !decimal(f3) {
            return None;
        }
        Some(XtraceExitRecord { level, fn_num, time_idx: f3.to_owned(), mem_usage })
    }
}

/// Mathematical model of a completed call record.
pub struct FnV {
    pub fn_num: u32,
    pub entry: Option<EntryV>,
    pub exit: Option<ExitV>,
}

/// A completed call: the invocation identifier with its correlated entry
/// and exit records.  A call record is only materialized once both halves
/// are present.
#[derive(Clone, Debug)]
pub struct XtraceFnRecord {
    pub fn_num: u32,
    pub entry_record: Option<XtraceEntryRecord>,
    pub exit_record: Option<XtraceExitRecord>,
}

impl View for XtraceFnRecord {
    type V = FnV;

    open spec fn view(&self) -> FnV {
        FnV {
            fn_num: self.fn_num,
            entry: match &self.entry_record {
                Some(e) => Some(e@),
                None => None,
            },
            exit: match &self.exit_record {
                Some(x) => Some(x@),
                None => None,
            },
        }
    }
}

} // verus!
