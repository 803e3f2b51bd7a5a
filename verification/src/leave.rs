//! Planning and delivery of `leave` requests.
//!
//! A `leave <name>` reads the program's PID file and signals the supervisor
//! whose PID it holds; a missing file is the normal "not running" outcome,
//! not an error.  A blanket `leave` sweeps every `*.pid` file in the
//! registry directory except the roster file, and one corrupt PID file never
//! prevents signaling the remaining valid ones.

use vstd::prelude::*;

use crate::numerals::{numeral_value, parse_u32, trimmed, valid_u32_numeral};

verus! {

/// The name of the roster file, which a sweep must skip.
pub open spec fn roster_file_chars() -> Seq<char> {
    "processes.list"@
}

/// The file name of the roster: the shared list of supervised programs.
pub fn roster_file_name() -> (r: String)
    ensures
        r@ == roster_file_chars(),
{
    String::from_str("processes.list")
}

/// A file name of the form `<name>.pid` with a non-empty `<name>`.
pub open spec fn has_pid_extension(s: Seq<char>) -> bool {
    s.len() >= 5 && s[s.len() - 4] == '.' && s[s.len() - 3] == 'p' && s[s.len() - 2] == 'i' && s[
        s.len() - 1
    ] == 'd'
}

/// A directory entry a sweep considers: a PID file that is not the roster.
pub open spec fn is_registry_name(s: Seq<char>) -> bool {
    has_pid_extension(s) && s != roster_file_chars()
}

/// The program name of a PID file: the file name without its extension.
pub open spec fn stem_chars(s: Seq<char>) -> Seq<char> {
    s.subrange(0, s.len() - 4)
}

/// Whether a file name is one the sweep handles.
pub fn is_registry_file(name: &String) -> (r: bool)
    ensures
        r == is_registry_name(name@),
{
    let len = name.as_str().unicode_len();
    if len < 5 {
        return false;
    }
    let dotted = name.as_str().get_char(len - 4) == '.' && name.as_str().get_char(len - 3) == 'p'
        && name.as_str().get_char(len - 2) == 'i' && name.as_str().get_char(len - 1) == 'd';
    if !dotted {
        return false;
    }
    let is_roster = name.eq(&roster_file_name());
    !is_roster
}

/// The program name of a PID file.
pub fn file_stem(name: &String) -> (r: String)
    requires
        has_pid_extension(name@),
    ensures
        r@ == stem_chars(name@),
{
    let len = name.as_str().unicode_len();
    let stem = name.as_str().substring_char(0, len - 4);
    String::from_str(stem)
}

/// One entry of the PID registry directory: a file name and its content,
/// or no content where the file could not be read.
pub struct SweepEntry {
    pub file_name: String,
    pub content: Option<String>,
}

/// The PID a registry entry stores, where its content parses as one.
pub open spec fn entry_pid(e: SweepEntry) -> Option<u32> {
    if e.content is Some && valid_u32_numeral(trimmed(e.content->0@)) {
        Some(numeral_value(trimmed(e.content->0@)) as u32)
    } else {
        None
    }
}

/// An entry the sweep signals: a well-formed PID file that is not the roster.
pub open spec fn entry_swept(e: SweepEntry) -> bool {
    is_registry_name(e.file_name@) && entry_pid(e) is Some
}

/// An entry the sweep reports and skips: a PID file whose content is missing
/// or corrupt.
pub open spec fn entry_skipped(e: SweepEntry) -> bool {
    is_registry_name(e.file_name@) && entry_pid(e) is None
}

/// The signals a sweep delivers: program name and PID of every well-formed
/// PID file, in directory order.
pub open spec fn sweep_signals(entries: Seq<SweepEntry>) -> Seq<(Seq<char>, u32)>
    decreases entries.len(),
{
    if entries.len() == 0 {
        Seq::empty()
    } else {
        let rest = sweep_signals(entries.drop_last());
        let e = entries.last();
        if entry_swept(e) {
            rest.push((stem_chars(e.file_name@), entry_pid(e)->0))
        } else {
            rest
        }
    }
}

/// The PID files a sweep skips with a warning, in directory order.
pub open spec fn sweep_skipped(entries: Seq<SweepEntry>) -> Seq<Seq<char>>
    decreases entries.len(),
{
    if entries.len() == 0 {
        Seq::empty()
    } else {
        let rest = sweep_skipped(entries.drop_last());
        let e = entries.last();
        if entry_skipped(e) {
            rest.push(e.file_name@)
        } else {
            rest
        }
    }
}

/// The plan of a blanket `leave`: whom to signal, and which PID files were
/// skipped as unreadable or corrupt.
pub struct SweepPlan {
    /// Program name and PID of each supervisor to signal.
    pub signals: Vec<(String, u32)>,
    /// File names of the PID files skipped with a warning.
    pub skipped: Vec<String>,
}

pub open spec fn signals_view(v: Seq<(String, u32)>) -> Seq<(Seq<char>, u32)> {
    v.map_values(|p: (String, u32)| (p.0@, p.1))
}

pub open spec fn names_view(v: Seq<String>) -> Seq<Seq<char>> {
    v.map_values(|s: String| s@)
}

/// Plans a blanket `leave` over the registry directory's entries: every
/// `*.pid` file except the roster yields a signal when its content parses as
/// a PID, and a warning otherwise.  One corrupt or unreadable PID file never
/// blocks the rest of the sweep.
pub fn plan_sweep(entries: &Vec<SweepEntry>) -> (r: SweepPlan)
    ensures
        signals_view(r.signals@) == sweep_signals(entries@),
        names_view(r.skipped@) == sweep_skipped(entries@),
{
    let mut signals: Vec<(String, u32)> = Vec::new();
    let mut skipped: Vec<String> = Vec::new();
    let mut i: usize = 0;
    while i < entries.len()
        invariant
            i <= entries@.len(),
            signals_view(signals@) == sweep_signals(entries@.subrange(0, i as int)),
            names_view(skipped@) == sweep_skipped(entries@.subrange(0, i as int)),
        decreases entries@.len() - i,
    {
        let ghost prefix = entries@.subrange(0, i as int);
        proof {
            assert(entries@.subrange(0, i + 1 as int).drop_last() =~= prefix);
            assert(entries@.subrange(0, i + 1 as int).last() == entries@[i as int]);
        }
        let e = &entries[i];
        if is_registry_file(&e.file_name) {
            let mut parsed: Option<u32> = None;
            match &e.content {
                Some(c) => {
                    parsed = parse_u32(c.as_str());
                },
                None => {},
            }
            match parsed {
                Some(pid) => {
                    let stem = file_stem(&e.file_name);
                    signals.push((stem, pid));
                    proof {
                        assert(signals_view(signals@) =~= sweep_signals(
                            entries@.subrange(0, i + 1 as int),
                        ));
                        assert(names_view(skipped@) =~= sweep_skipped(
                            entries@.subrange(0, i + 1 as int),
                        ));
                    }
                },
                None => {
                    skipped.push(e.file_name.clone());
                    proof {
                        assert(signals_view(signals@) =~= sweep_signals(
                            entries@.subrange(0, i + 1 as int),
                        ));
                        assert(names_view(skipped@) =~= sweep_skipped(
                            entries@.subrange(0, i + 1 as int),
                        ));
                    }
                },
            }
        } else {
            proof {
                assert(signals_view(signals@) =~= sweep_signals(
                    entries@.subrange(0, i + 1 as int),
                ));
                assert(names_view(skipped@) =~= sweep_skipped(entries@.subrange(0, i + 1 as int)));
            }
        }
        i += 1;
    }
    proof {
        assert(entries@.subrange(0, entries@.len() as int) =~= entries@);
    }
    SweepPlan { signals, skipped }
}

/// A corrupt or unreadable entry changes nothing for the others: the sweep's
/// signals are the same with it as without it.
pub proof fn lemma_corrupt_entry_blocks_nothing(
    before: Seq<SweepEntry>,
    bad: SweepEntry,
    after: Seq<SweepEntry>,
)
    requires
        entry_pid(bad) is None,
    ensures
        sweep_signals(before + seq![bad] + after) == sweep_signals(before + after),
    decreases after.len(),
{
    if after.len() == 0 {
        assert((before + seq![bad] + after) =~= before + seq![bad]);
        assert((before + seq![bad]).drop_last() =~= before);
        assert((before + seq![bad]).last() == bad);
        assert(before + after =~= before);
    } else {
        lemma_corrupt_entry_blocks_nothing(before, bad, after.drop_last());
        assert((before + seq![bad] + after).drop_last() =~= before + seq![bad] + after.drop_last());
        assert((before + after).drop_last() =~= before + after.drop_last());
        assert((before + seq![bad] + after).last() == after.last());
        assert((before + after).last() == after.last());
    }
}

/// Every well-formed PID file in the directory is signaled: its program name
/// and PID appear in the sweep.
pub proof fn lemma_sweep_covers(entries: Seq<SweepEntry>, i: int)
    requires
        0 <= i < entries.len(),
        entry_swept(entries[i]),
    ensures
        exists|k: int|
            0 <= k < sweep_signals(entries).len() && sweep_signals(entries)[k] == (
                stem_chars(entries[i].file_name@),
                entry_pid(entries[i])->0,
            ),
    decreases entries.len(),
{
    let e = entries[i];
    if i == entries.len() - 1 {
        assert(entries.last() == e);
        let sigs = sweep_signals(entries);
        let k = sweep_signals(entries.drop_last()).len() as int;
        assert(sigs[k] == (stem_chars(e.file_name@), entry_pid(e)->0));
    } else {
        lemma_sweep_covers(entries.drop_last(), i);
        assert(entries.drop_last()[i] == e);
        let rest = sweep_signals(entries.drop_last());
        let k = choose|k: int|
            0 <= k < rest.len() && rest[k] == (stem_chars(e.file_name@), entry_pid(e)->0);
        if entry_swept(entries.last()) {
            assert(sweep_signals(entries)[k] == rest[k]);
        } else {
            assert(sweep_signals(entries) == rest);
        }
    }
}

/// Only well-formed PID files are signaled: every signal of a sweep comes
/// from some `*.pid` entry that parses — never from the roster file or any
/// other file.
pub proof fn lemma_sweep_sound(entries: Seq<SweepEntry>, k: int)
    requires
        0 <= k < sweep_signals(entries).len(),
    ensures
        exists|i: int|
            0 <= i < entries.len() && entry_swept(#[trigger] entries[i]) && sweep_signals(
                entries,
            )[k] == (stem_chars(entries[i].file_name@), entry_pid(entries[i])->0),
    decreases entries.len(),
{
    let rest = sweep_signals(entries.drop_last());
    if entry_swept(entries.last()) && k == rest.len() {
        let i = entries.len() - 1;
        assert(entries[i] == entries.last());
        assert(sweep_signals(entries)[k] == (
            stem_chars(entries[i].file_name@),
            entry_pid(entries[i])->0,
        ));
    } else {
        lemma_sweep_sound(entries.drop_last(), k);
        let i = choose|i: int|
            0 <= i < entries.drop_last().len() && entry_swept(#[trigger] entries.drop_last()[i])
                && rest[k] == (
                stem_chars(entries.drop_last()[i].file_name@),
                entry_pid(entries.drop_last()[i])->0,
            );
        assert(entries[i] == entries.drop_last()[i]);
        assert(sweep_signals(entries)[k] == rest[k]);
    }
}

/// The decision of a `leave <name>`.
#[derive(Clone, Copy, PartialEq, Eq, Structural, Debug)]
pub enum LeaveDecision {
    /// No PID file exists: the program is not running.  A normal outcome,
    /// not an error; nothing is signaled.
    NotRunning,
    /// The PID file exists but its content is not a PID: a recoverable
    /// error; nothing is signaled.
    Malformed,
    /// The stored PID, to be signaled.
    Signal { pid: u32 },
}

/// Decides a `leave <name>` from the PID file's content, or from its absence
/// (`None`).  Exactly the well-formed contents are signaled.
pub fn plan_leave_named(content: Option<&String>) -> (r: LeaveDecision)
    ensures
        match content {
            None => r == LeaveDecision::NotRunning,
            Some(c) => {
                if valid_u32_numeral(trimmed(c@)) {
                    r == (LeaveDecision::Signal { pid: numeral_value(trimmed(c@)) as u32 })
                } else {
                    r == LeaveDecision::Malformed
                }
            },
        },
{
    match content {
        None => LeaveDecision::NotRunning,
        Some(c) => {
            match parse_u32(c.as_str()) {
                Some(pid) => LeaveDecision::Signal { pid },
                None => LeaveDecision::Malformed,
            }
        },
    }
}

} // verus!
