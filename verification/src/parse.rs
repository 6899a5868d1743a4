//! Trace accumulator and parse driver: folds classified, decoded lines
//! into the growing trace file record, correlating entries and exits.
//!
//! The whole parse is specified by the fold [`run`] of the per-line
//! transition [`step`] over the input lines, starting from an empty trace
//! file and an empty pending cache.

use vstd::prelude::*;

use crate::classify::classify;
use crate::classify::classify_line;
use crate::classify::decode_start;
use crate::classify::decode_version;
use crate::classify::format_capture;
use crate::classify::LineRegex;
use crate::correlate::Correlator;
use crate::records::decode_entry;
use crate::records::decode_exit;
use crate::records::supported_format;
use crate::records::EntryV;
use crate::records::FnV;
use crate::records::ParseError;
use crate::records::ParseErrorV;
use crate::records::XtraceEntryRecord;
use crate::records::XtraceExitRecord;
use crate::records::XtraceFmtRecord;
use crate::records::XtraceFnRecord;
use crate::records::XtraceStartTimeRecord;
use crate::records::XtraceVersionRecord;

verus! {

/// Mathematical model of a trace file being accumulated: the optional
/// header fields and the completed call records in exit order.
pub struct FileV {
    pub version: Option<Seq<char>>,
    pub format: Option<u32>,
    pub start: Option<Seq<char>>,
    pub fn_records: Seq<FnV>,
}

/// The parsed trace file: a caller-supplied opaque identifier, the
/// optional header records, and the completed call records in the order
/// their exits were observed.
#[derive(Debug)]
pub struct XtraceFileRecord {
    pub id: uuid::Uuid,
    pub start: Option<XtraceStartTimeRecord>,
    pub format: Option<XtraceFmtRecord>,
    pub version: Option<XtraceVersionRecord>,
    pub fn_records: Vec<XtraceFnRecord>,
}

impl View for XtraceFileRecord {
    type V = FileV;

    open spec fn view(&self) -> FileV {
        FileV {
            version: match &self.version {
                Some(v) => Some(v.version@),
                None => None,
            },
            format: match &self.format {
                Some(f) => Some(f.format),
                None => None,
            },
            start: match &self.start {
                Some(s) => Some(s.start_time@),
                None => None,
            },
            fn_records: self.fn_records@.map_values(|r: XtraceFnRecord| r@),
        }
    }
}

impl XtraceFileRecord {
    /// Append a completed call record to the ordered sequence.
    pub fn add_fn_record(&mut self, func: XtraceFnRecord)
        ensures
            final(self)@.fn_records == old(self)@.fn_records.push(func@),
            final(self)@.version == old(self)@.version,
            final(self)@.format == old(self)@.format,
            final(self)@.start == old(self)@.start,
            final(self).id == old(self).id,
    {
        let ghost fv = func@;
        let ghost pre = self.fn_records@;
        self.fn_records.push(func);
        proof {
            assert(self.fn_records@.map_values(|r: XtraceFnRecord| r@) =~= pre.map_values(
                |r: XtraceFnRecord| r@,
            ).push(fv));
        }
    }
}

/// The empty trace file every parse starts from.
pub open spec fn init_file() -> FileV {
    FileV { version: None, format: None, start: None, fn_records: Seq::empty() }
}

/// One parse step: how a single raw line transforms the accumulated file
/// and the pending-entry cache, or fails the whole parse.
///
/// An unclassifiable line is skipped.  A version, format or start line
/// overwrites the corresponding header field, a format version outside
/// the supported set being fatal.  An entry line is stored as pending,
/// replacing any pending entry with the same identifier.  An exit line
/// consumes its matching pending entry into a completed call record, and
/// is dropped silently when none is pending.  A line that classified but
/// fails to decode is fatal.
pub open spec fn step(f: FileV, p: Map<u32, EntryV>, line: Seq<char>) -> Result<
    (FileV, Map<u32, EntryV>),
    ParseErrorV,
> {
    match classify(line) {
        None => Ok((f, p)),
        Some(LineRegex::Version) => match decode_version(line) {
            Some(v) => Ok(
                (
                    FileV {
                        version: Some(v),
                        format: f.format,
                        start: f.start,
                        fn_records: f.fn_records,
                    },
                    p,
                ),
            ),
            None => Err(ParseErrorV::UnparseableField { line }),
        },
        Some(LineRegex::Format) => {
            let d = format_capture(line);
            if supported_format(d) {
                Ok(
                    (
                        FileV {
                            version: f.version,
                            format: Some(4),
                            start: f.start,
                            fn_records: f.fn_records,
                        },
                        p,
                    ),
                )
            } else {
                Err(ParseErrorV::UnsupportedFormat { found: d })
            }
        },
        Some(LineRegex::Start) => match decode_start(line) {
            Some(t) => Ok(
                (
                    FileV {
                        version: f.version,
                        format: f.format,
                        start: Some(t),
                        fn_records: f.fn_records,
                    },
                    p,
                ),
            ),
            None => Err(ParseErrorV::UnparseableField { line }),
        },
        Some(LineRegex::FunctionEntry) => match decode_entry(line) {
            Some(e) => Ok((f, p.insert(e.fn_num, e))),
            None => Err(ParseErrorV::UnparseableField { line }),
        },
        Some(LineRegex::FunctionExit) => match decode_exit(line) {
            Some(x) => if p.contains_key(x.fn_num) {
                Ok(
                    (
                        FileV {
                            version: f.version,
                            format: f.format,
                            start: f.start,
                            fn_records: f.fn_records.push(
                                FnV { fn_num: x.fn_num, entry: Some(p[x.fn_num]), exit: Some(x) },
                            ),
                        },
                        p.remove(x.fn_num),
                    ),
                )
            } else {
                Ok((f, p))
            },
            None => Err(ParseErrorV::UnparseableField { line }),
        },
        Some(LineRegex::Penultimate) => Ok((f, p)),
        Some(LineRegex::End) => Ok((f, p)),
    }
}

/// The fold of [`step`] over a sequence of lines from a given state.
pub open spec fn run_from(f: FileV, p: Map<u32, EntryV>, lines: Seq<Seq<char>>) -> Result<
    (FileV, Map<u32, EntryV>),
    ParseErrorV,
>
    decreases lines.len(),
{
    if lines.len() == 0 {
        Ok((f, p))
    } else {
        match step(f, p, lines[0]) {
            Ok(st) => run_from(st.0, st.1, lines.subrange(1, lines.len() as int)),
            Err(e) => Err(e),
        }
    }
}

/// What parsing a whole sequence of lines yields, from the empty state.
pub open spec fn run(lines: Seq<Seq<char>>) -> Result<(FileV, Map<u32, EntryV>), ParseErrorV> {
    run_from(init_file(), Map::empty(), lines)
}

/// Classify and fold one raw line into the accumulated file and the
/// pending-entry cache, exactly as [`step`] describes; on a fatal line
/// nothing is changed and the error is returned.
pub fn process_line(run: &mut XtraceFileRecord, entry_cache: &mut Correlator, line: &str) -> (r:
    Result<(), ParseError>)
    ensures
        step(old(run)@, old(entry_cache)@, line@) matches Ok(st) ==> {
            &&& r is Ok
            &&& final(run)@ == st.0
            &&& final(entry_cache)@ == st.1
        },
        step(old(run)@, old(entry_cache)@, line@) matches Err(e) ==> {
            &&& r matches Err(pe) && pe@ == e
            &&& final(run)@ == old(run)@
            &&& final(entry_cache)@ == old(entry_cache)@
        },
        final(run).id == old(run).id,
{
    match classify_line(line) {
        None => Ok(()),
        Some(LineRegex::Version) => match XtraceVersionRecord::new(line) {
            Some(rec) => {
                run.version = Some(rec);
                Ok(())
            },
            None => Err(ParseError::UnparseableField { line: line.to_owned() }),
        },
        Some(LineRegex::Format) => match XtraceFmtRecord::new(line) {
            Ok(rec) => {
                run.format = Some(rec);
                Ok(())
            },
            Err(e) => Err(e),
        },
        Some(LineRegex::Start) => match XtraceStartTimeRecord::new(line) {
            Some(rec) => {
                run.start = Some(rec);
                Ok(())
            },
            None => Err(ParseError::UnparseableField { line: line.to_owned() }),
        },
        Some(LineRegex::FunctionEntry) => match XtraceEntryRecord::new(line) {
            Some(rec) => {
                entry_cache.observe_entry(rec);
                Ok(())
            },
            None => Err(ParseError::UnparseableField { line: line.to_owned() }),
        },
        Some(LineRegex::FunctionExit) => match XtraceExitRecord::new(line) {
            Some(rec) => {
                match entry_cache.observe_exit(rec) {
                    Some(fn_record) => {
                        run.add_fn_record(fn_record);
                    },
                    None => {},
                }
                Ok(())
            },
            None => Err(ParseError::UnparseableField { line: line.to_owned() }),
        },
        Some(LineRegex::Penultimate) => Ok(()),
        Some(LineRegex::End) => Ok(()),
    }
}

/// Parse a whole trace, given as its raw lines in file order, into a
/// trace file record under the caller-supplied identifier — exactly the
/// fold [`run`] of the per-line transition over the input.
pub fn parse_xtrace_lines(id: uuid::Uuid, lines: &Vec<String>) -> (r: Result<
    XtraceFileRecord,
    ParseError,
>)
    ensures
        run(lines.deep_view()) matches Ok(st) ==> (r matches Ok(f) && f@ == st.0 && f.id == id),
        run(lines.deep_view()) matches Err(e) ==> (r matches Err(pe) && pe@ == e),
{
    let mut file_run = XtraceFileRecord {
        id,
        start: None,
        format: None,
        version: None,
        fn_records: Vec::new(),
    };
    let mut entry_cache = Correlator::new();
    proof {
        assert(file_run@.fn_records =~= init_file().fn_records);
        assert(file_run@ == init_file());
    }
    let ghost all: Seq<Seq<char>> = lines.deep_view();
    proof {
        assert(all.subrange(0, all.len() as int) =~= all);
    }
    let mut line_number: usize = 0;
    while line_number < lines.len()
        invariant
            line_number <= lines.len(),
            all == lines.deep_view(),
            all.len() == lines@.len(),
            run(all) == run_from(
                file_run@,
                entry_cache@,
                all.subrange(line_number as int, all.len() as int),
            ),
            file_run.id == id,
        decreases lines.len() - line_number,
    {
        let ghost pre_f = file_run@;
        let ghost pre_p = entry_cache@;
        let ghost suffix = all.subrange(line_number as int, all.len() as int);
        let line = &lines[line_number];
        proof {
            assert(suffix[0] == all[line_number as int]);
            assert(all[line_number as int] == lines@[line_number as int]@);
            assert(suffix.subrange(1, suffix.len() as int) =~= all.subrange(
                line_number as int + 1,
                all.len() as int,
            ));
        }
        match process_line(&mut file_run, &mut entry_cache, line.as_str()) {
            Ok(()) => {
                proof {
                    let st = (file_run@, entry_cache@);
                    assert(step(pre_f, pre_p, suffix[0]) == Ok::<_, ParseErrorV>(st));
                    assert(run_from(pre_f, pre_p, suffix) == run_from(
                        file_run@,
                        entry_cache@,
                        suffix.subrange(1, suffix.len() as int),
                    ));
                }
            },
            Err(e) => {
                proof {
                    assert(step(pre_f, pre_p, suffix[0]) is Err);
                    assert(run_from(pre_f, pre_p, suffix) == step(pre_f, pre_p, suffix[0]));
                }
                return Err(e);
            },
        }
        line_number = line_number + 1;
    }
    proof {
        assert(all.subrange(line_number as int, all.len() as int) =~= Seq::<Seq<char>>::empty());
        assert(run(all) == Ok::<_, ParseErrorV>((file_run@, entry_cache@)));
    }
    Ok(file_run)
}

} // verus!
