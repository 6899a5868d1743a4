//! Laws of the parse: the correlation guarantees stated over the
//! transition [`step`] and the fold [`run`] that specify the driver.

use vstd::prelude::*;

use crate::classify::classify;
use crate::classify::LineRegex;
use crate::parse::init_file;
use crate::parse::run;
use crate::parse::run_from;
use crate::parse::step;
use crate::parse::FileV;
use crate::records::decode_entry;
use crate::records::decode_exit;
use crate::records::supported_format;
use crate::classify::format_capture;
use crate::records::EntryV;
use crate::records::ExitV;
use crate::records::FnV;
use crate::records::ParseErrorV;

verus! {

/// The line is a function-exit line carrying the given invocation
/// identifier.
pub open spec fn exit_with_id(line: Seq<char>, id: u32) -> bool {
    &&& classify(line) == Some(LineRegex::FunctionExit)
    &&& match decode_exit(line) {
        Some(x) => x.fn_num == id,
        None => false,
    }
}

/// For a valid function-entry/exit line pair sharing an invocation
/// identifier, parsing the pair yields exactly one call record with that
/// identifier, whose halves are exactly the decoded field values of the
/// two lines.
pub proof fn lemma_entry_exit_pair(
    entry_line: Seq<char>,
    exit_line: Seq<char>,
    e: EntryV,
    x: ExitV,
)
    requires
        classify(entry_line) == Some(LineRegex::FunctionEntry),
        decode_entry(entry_line) == Some(e),
        classify(exit_line) == Some(LineRegex::FunctionExit),
        decode_exit(exit_line) == Some(x),
        x.fn_num == e.fn_num,
    ensures
        run(seq![entry_line, exit_line]) matches Ok(st) && st.0.fn_records =~= seq![
            (FnV { fn_num: e.fn_num, entry: Some(e), exit: Some(x) }),
        ],
{
    reveal_with_fuel(run_from, 4);
    let lines = seq![entry_line, exit_line];
    let p1 = Map::<u32, EntryV>::empty().insert(e.fn_num, e);
    assert(step(init_file(), Map::empty(), lines[0]) == Ok::<_, ParseErrorV>((init_file(), p1)));
    let tail = lines.subrange(1, 2);
    assert(tail[0] == exit_line);
    assert(p1.contains_key(x.fn_num) && p1[x.fn_num] == e);
    assert(tail.subrange(1, 1) =~= Seq::<Seq<char>>::empty());
}

/// An exit line whose invocation identifier is not pending changes
/// nothing: no call record is produced and no error is raised.
pub proof fn lemma_unmatched_exit_step(f: FileV, p: Map<u32, EntryV>, line: Seq<char>, x: ExitV)
    requires
        classify(line) == Some(LineRegex::FunctionExit),
        decode_exit(line) == Some(x),
        !p.contains_key(x.fn_num),
    ensures
        step(f, p, line) == Ok::<(FileV, Map<u32, EntryV>), ParseErrorV>((f, p)),
{
}

/// Parsing a lone exit line — one whose identifier never appeared as an
/// entry — produces zero call records and no error.
pub proof fn lemma_unmatched_exit_run(line: Seq<char>, x: ExitV)
    requires
        classify(line) == Some(LineRegex::FunctionExit),
        decode_exit(line) == Some(x),
    ensures
        run(seq![line]) matches Ok(st) && st.0.fn_records =~= Seq::<FnV>::empty(),
{
    reveal_with_fuel(run_from, 3);
    let lines = seq![line];
    lemma_unmatched_exit_step(init_file(), Map::empty(), lines[0], x);
    assert(lines.subrange(1, 1) =~= Seq::<Seq<char>>::empty());
}

/// The line is a function-entry line carrying the given invocation
/// identifier.
pub open spec fn entry_with_id(line: Seq<char>, id: u32) -> bool {
    &&& classify(line) == Some(LineRegex::FunctionEntry)
    &&& match decode_entry(line) {
        Some(e) => e.fn_num == id,
        None => false,
    }
}

/// Call records need a pending entry: if no line of the input is an entry
/// line carrying `id`, `id` is not pending, and no already-accumulated
/// record carries `id`, then no record of the final result carries `id`
/// and `id` is still not pending.
pub proof fn lemma_records_need_entry(
    f: FileV,
    p: Map<u32, EntryV>,
    lines: Seq<Seq<char>>,
    id: u32,
    st: (FileV, Map<u32, EntryV>),
)
    requires
        run_from(f, p, lines) == Ok::<(FileV, Map<u32, EntryV>), ParseErrorV>(st),
        forall|i: int| 0 <= i < lines.len() ==> !entry_with_id(#[trigger] lines[i], id),
        !p.contains_key(id),
        forall|k: int|
            0 <= k < f.fn_records.len() ==> (#[trigger] f.fn_records[k]).fn_num != id,
    ensures
        forall|k: int|
            0 <= k < st.0.fn_records.len() ==> (#[trigger] st.0.fn_records[k]).fn_num != id,
        !st.1.contains_key(id),
    decreases lines.len(),
{
    if lines.len() > 0 {
        let s1r = step(f, p, lines[0]);
        let s1 = match s1r {
            Ok(s) => s,
            Err(_) => arbitrary(),
        };
        assert(s1r == Ok::<(FileV, Map<u32, EntryV>), ParseErrorV>(s1));
        assert(!entry_with_id(lines[0], id));
        assert(!s1.1.contains_key(id)) by {
            if classify(lines[0]) == Some(LineRegex::FunctionEntry) {
                match decode_entry(lines[0]) {
                    Some(e) => {
                        assert(e.fn_num != id);
                    },
                    None => {},
                }
            }
        }
        assert forall|k: int|
            0 <= k < s1.0.fn_records.len() implies (#[trigger] s1.0.fn_records[k]).fn_num
            != id by {
            if classify(lines[0]) == Some(LineRegex::FunctionExit) {
                match decode_exit(lines[0]) {
                    Some(x) => {
                        if p.contains_key(x.fn_num) {
                            assert(x.fn_num != id);
                            if k < f.fn_records.len() {
                                assert(s1.0.fn_records[k] == f.fn_records[k]);
                            } else {
                                assert(s1.0.fn_records[k].fn_num == x.fn_num);
                            }
                        }
                    },
                    None => {},
                }
            }
        }
        let tail = lines.subrange(1, lines.len() as int);
        assert forall|i: int| 0 <= i < tail.len() implies !entry_with_id(
            #[trigger] tail[i],
            id,
        ) by {
            assert(tail[i] == lines[i + 1]);
        }
        lemma_records_need_entry(s1.0, s1.1, tail, id, st);
    }
}

/// An exit line whose invocation identifier never appeared as an entry
/// line of the input produces no call record carrying that identifier.
pub proof fn lemma_exit_without_entry(lines: Seq<Seq<char>>, id: u32, st: (FileV, Map<u32, EntryV>))
    requires
        run(lines) == Ok::<(FileV, Map<u32, EntryV>), ParseErrorV>(st),
        forall|i: int| 0 <= i < lines.len() ==> !entry_with_id(#[trigger] lines[i], id),
    ensures
        forall|k: int|
            0 <= k < st.0.fn_records.len() ==> (#[trigger] st.0.fn_records[k]).fn_num != id,
{
    lemma_records_need_entry(init_file(), Map::<u32, EntryV>::empty(), lines, id, st);
}

/// Call records come from exit lines only: if no line of the input is an
/// exit line carrying `id`, and no already-accumulated record carries
/// `id`, then no record of the final result carries `id`.
pub proof fn lemma_records_need_exit(
    f: FileV,
    p: Map<u32, EntryV>,
    lines: Seq<Seq<char>>,
    id: u32,
    st: (FileV, Map<u32, EntryV>),
)
    requires
        run_from(f, p, lines) == Ok::<(FileV, Map<u32, EntryV>), ParseErrorV>(st),
        forall|i: int| 0 <= i < lines.len() ==> !exit_with_id(#[trigger] lines[i], id),
        forall|k: int|
            0 <= k < f.fn_records.len() ==> (#[trigger] f.fn_records[k]).fn_num != id,
    ensures
        forall|k: int|
            0 <= k < st.0.fn_records.len() ==> (#[trigger] st.0.fn_records[k]).fn_num != id,
    decreases lines.len(),
{
    if lines.len() > 0 {
        let s1r = step(f, p, lines[0]);
        let s1 = match s1r {
            Ok(s) => s,
            Err(_) => arbitrary(),
        };
        assert(s1r == Ok::<(FileV, Map<u32, EntryV>), ParseErrorV>(s1));
        assert(!exit_with_id(lines[0], id));
        assert forall|k: int|
            0 <= k < s1.0.fn_records.len() implies (#[trigger] s1.0.fn_records[k]).fn_num
            != id by {
            if classify(lines[0]) == Some(LineRegex::FunctionExit) {
                match decode_exit(lines[0]) {
                    Some(x) => {
                        assert(x.fn_num != id);
                        if p.contains_key(x.fn_num) {
                            if k < f.fn_records.len() {
                                assert(s1.0.fn_records[k] == f.fn_records[k]);
                            } else {
                                assert(s1.0.fn_records[k].fn_num == x.fn_num);
                            }
                        }
                    },
                    None => {},
                }
            }
        }
        let tail = lines.subrange(1, lines.len() as int);
        assert forall|i: int| 0 <= i < tail.len() implies !exit_with_id(
            #[trigger] tail[i],
            id,
        ) by {
            assert(tail[i] == lines[i + 1]);
        }
        lemma_records_need_exit(s1.0, s1.1, tail, id, st);
    }
}

/// An entry line whose invocation identifier never appears in an exit
/// line of the input is absent from the final result.
pub proof fn lemma_dangling_entry_absent(
    lines: Seq<Seq<char>>,
    id: u32,
    st: (FileV, Map<u32, EntryV>),
)
    requires
        run(lines) == Ok::<(FileV, Map<u32, EntryV>), ParseErrorV>(st),
        forall|i: int| 0 <= i < lines.len() ==> !exit_with_id(#[trigger] lines[i], id),
    ensures
        forall|k: int|
            0 <= k < st.0.fn_records.len() ==> (#[trigger] st.0.fn_records[k]).fn_num != id,
{
    lemma_records_need_exit(init_file(), Map::<u32, EntryV>::empty(), lines, id, st);
}

/// Re-observing an identifier as a new entry before its exit replaces the
/// pending entry, last write winning: the produced call record reflects
/// only the most recent entry.
pub proof fn lemma_reentry_last_write_wins(
    l1: Seq<char>,
    l2: Seq<char>,
    l3: Seq<char>,
    e1: EntryV,
    e2: EntryV,
    x: ExitV,
)
    requires
        classify(l1) == Some(LineRegex::FunctionEntry),
        decode_entry(l1) == Some(e1),
        classify(l2) == Some(LineRegex::FunctionEntry),
        decode_entry(l2) == Some(e2),
        e2.fn_num == e1.fn_num,
        classify(l3) == Some(LineRegex::FunctionExit),
        decode_exit(l3) == Some(x),
        x.fn_num == e1.fn_num,
    ensures
        run(seq![l1, l2, l3]) matches Ok(st) && st.0.fn_records =~= seq![
            (FnV { fn_num: x.fn_num, entry: Some(e2), exit: Some(x) }),
        ],
{
    reveal_with_fuel(run_from, 5);
    let lines = seq![l1, l2, l3];
    let p1 = Map::<u32, EntryV>::empty().insert(e1.fn_num, e1);
    let p2 = p1.insert(e2.fn_num, e2);
    assert(step(init_file(), Map::empty(), lines[0]) == Ok::<_, ParseErrorV>((init_file(), p1)));
    let t1 = lines.subrange(1, 3);
    assert(t1[0] == l2);
    assert(step(init_file(), p1, l2) == Ok::<_, ParseErrorV>((init_file(), p2)));
    let t2 = t1.subrange(1, 2);
    assert(t2[0] == l3);
    assert(p2.contains_key(x.fn_num) && p2[x.fn_num] == e2);
    assert(t2.subrange(1, 1) =~= Seq::<Seq<char>>::empty());
}

/// A format header carrying the supported value `4` parses and only sets
/// the format field; any other value aborts the parse at that line with
/// the typed unsupported-format error, before any further line is
/// processed.
pub proof fn lemma_format_gate(
    f: FileV,
    p: Map<u32, EntryV>,
    line: Seq<char>,
    rest: Seq<Seq<char>>,
)
    requires
        classify(line) == Some(LineRegex::Format),
    ensures
        supported_format(format_capture(line)) ==> run_from(f, p, seq![line] + rest) == run_from(
            (FileV { version: f.version, format: Some(4), start: f.start, fn_records: f.fn_records }),
            p,
            rest,
        ),
        !supported_format(format_capture(line)) ==> run_from(f, p, seq![line] + rest) == Err::<
            (FileV, Map<u32, EntryV>),
            ParseErrorV,
        >(ParseErrorV::UnsupportedFormat { found: format_capture(line) }),
{
    let lines = seq![line] + rest;
    assert(lines[0] == line);
    assert(lines.subrange(1, lines.len() as int) =~= rest);
}

} // verus!
