//! Construction of log lines.
//!
//! Every write to the shared log is one fully formatted line: a bracketed
//! `YYYY-MM-DD HH:MM:SS` timestamp, the message, and a single line break.
//! The writer appends the whole line in one operation, so concurrent writers
//! never interleave within a line; this module guarantees the other half of
//! that contract, that a line holds exactly one line break, at its end.

use vstd::prelude::*;

use crate::numerals::{
    decimal_chars, format_i32, format_u32, is_digit, lemma_decimal_chars_digits,
    signed_decimal_chars,
};

verus! {

/// Two-digit zero-padded numeral of a value below one hundred.
pub open spec fn padded2_chars(n: nat) -> Seq<char> {
    if n < 10 {
        seq!['0'] + decimal_chars(n)
    } else {
        decimal_chars(n)
    }
}

/// Four-digit zero-padded numeral of a year between 0 and 9999; wider years
/// keep their full numeral, negative ones their sign.
pub open spec fn year_chars(y: int) -> Seq<char> {
    if 0 <= y < 10 {
        seq!['0', '0', '0'] + decimal_chars(y as nat)
    } else if 10 <= y < 100 {
        seq!['0', '0'] + decimal_chars(y as nat)
    } else if 100 <= y < 1000 {
        seq!['0'] + decimal_chars(y as nat)
    } else {
        signed_decimal_chars(y)
    }
}

/// `YYYY-MM-DD HH:MM:SS`.
pub open spec fn timestamp_chars(y: int, mo: nat, d: nat, h: nat, mi: nat, s: nat) -> Seq<char> {
    year_chars(y) + seq!['-'] + padded2_chars(mo) + seq!['-'] + padded2_chars(d) + seq![' ']
        + padded2_chars(h) + seq![':'] + padded2_chars(mi) + seq![':'] + padded2_chars(s)
}

/// A full log line: the bracketed timestamp, a space, the message, and one
/// line break.
pub open spec fn log_line_chars(ts: Seq<char>, msg: Seq<char>) -> Seq<char> {
    seq!['['] + ts + seq![']', ' '] + msg + seq!['\n']
}

fn padded2(n: u32) -> (r: String)
    requires
        n < 100,
    ensures
        r@ == padded2_chars(n as nat),
{
    if n < 10 {
        let r = String::from_str("0").concat(format_u32(n).as_str());
        proof {
            reveal_strlit("0");
            assert(r@ =~= padded2_chars(n as nat));
        }
        r
    } else {
        format_u32(n)
    }
}

fn format_year(y: i32) -> (r: String)
    ensures
        r@ == year_chars(y as int),
{
    if 0 <= y && y < 10 {
        let r = String::from_str("000").concat(format_u32(y as u32).as_str());
        proof {
            reveal_strlit("000");
            assert(r@ =~= year_chars(y as int));
        }
        r
    } else if 10 <= y && y < 100 {
        let r = String::from_str("00").concat(format_u32(y as u32).as_str());
        proof {
            reveal_strlit("00");
            assert(r@ =~= year_chars(y as int));
        }
        r
    } else if 100 <= y && y < 1000 {
        let r = String::from_str("0").concat(format_u32(y as u32).as_str());
        proof {
            reveal_strlit("0");
            assert(r@ =~= year_chars(y as int));
        }
        r
    } else {
        format_i32(y)
    }
}

/// Formats the timestamp of a log line from calendar and clock fields.
pub fn format_timestamp(y: i32, mo: u32, d: u32, h: u32, mi: u32, s: u32) -> (r: String)
    requires
        1 <= mo <= 12,
        1 <= d <= 31,
        h < 24,
        mi < 60,
        s < 60,
    ensures
        r@ == timestamp_chars(y as int, mo as nat, d as nat, h as nat, mi as nat, s as nat),
{
    let r = format_year(y).concat("-").concat(padded2(mo).as_str()).concat("-").concat(
        padded2(d).as_str(),
    ).concat(" ").concat(padded2(h).as_str()).concat(":").concat(padded2(mi).as_str()).concat(
        ":",
    ).concat(padded2(s).as_str());
    proof {
        reveal_strlit("-");
        reveal_strlit(" ");
        reveal_strlit(":");
        assert("-"@ =~= seq!['-']);
        assert(" "@ =~= seq![' ']);
        assert(":"@ =~= seq![':']);
        assert(r@ =~= timestamp_chars(y as int, mo as nat, d as nat, h as nat, mi as nat, s as nat));
    }
    r
}

/// Composes one log line from timestamp fields and a message.
pub fn compose_log_line(y: i32, mo: u32, d: u32, h: u32, mi: u32, s: u32, msg: &str) -> (r: String)
    requires
        1 <= mo <= 12,
        1 <= d <= 31,
        h < 24,
        mi < 60,
        s < 60,
    ensures
        r@ == log_line_chars(
            timestamp_chars(y as int, mo as nat, d as nat, h as nat, mi as nat, s as nat),
            msg@,
        ),
{
    let r = String::from_str("[").concat(
        format_timestamp(y, mo, d, h, mi, s).as_str(),
    ).concat("] ").concat(msg).concat("\n");
    proof {
        reveal_strlit("[");
        reveal_strlit("] ");
        reveal_strlit("\n");
        assert("["@ =~= seq!['[']);
        assert("] "@ =~= seq![']', ' ']);
        assert("\n"@ =~= seq!['\n']);
        assert(r@ =~= log_line_chars(
            timestamp_chars(y as int, mo as nat, d as nat, h as nat, mi as nat, s as nat),
            msg@,
        ));
    }
    r
}

/// Relies on chrono's `Local::now` and its `Datelike` / `Timelike`
/// accessors: the current local calendar date and clock time, whose fields
/// are documented to lie in the usual ranges (month 1 to 12, day 1 to 31,
/// hour below 24, minute and second below 60).  Nothing else can be promised
/// of a clock reading.
#[verifier::external_body]
fn local_now_fields() -> (r: (i32, u32, u32, u32, u32, u32))
    ensures
        1 <= r.1 <= 12,
        1 <= r.2 <= 31,
        r.3 < 24,
        r.4 < 60,
        r.5 < 60,
{
    let now = chrono::Local::now();
    (
        chrono::Datelike::year(&now),
        chrono::Datelike::month(&now),
        chrono::Datelike::day(&now),
        chrono::Timelike::hour(&now),
        chrono::Timelike::minute(&now),
        chrono::Timelike::second(&now),
    )
}

/// One fully formatted log line, stamped with the current local time.
pub fn render_log_line(msg: &str) -> (r: String)
    ensures
        exists|y: int, mo: nat, d: nat, h: nat, mi: nat, s: nat|
            1 <= mo <= 12 && 1 <= d <= 31 && h < 24 && mi < 60 && s < 60 && r@ == log_line_chars(
                #[trigger] timestamp_chars(y, mo, d, h, mi, s),
                msg@,
            ),
{
    let (y, mo, d, h, mi, s) = local_now_fields();
    let r = compose_log_line(y, mo, d, h, mi, s, msg);
    proof {
        assert(1 <= (mo as nat) && (mo as nat) <= 12 && 1 <= (d as nat) && (d as nat) <= 31 && (
        h as nat) < 24 && (mi as nat) < 60 && (s as nat) < 60 && r@ == log_line_chars(
            timestamp_chars(y as int, mo as nat, d as nat, h as nat, mi as nat, s as nat),
            msg@,
        ));
    }
    r
}

/// No line break occurs in `s`.
pub open spec fn has_no_newline(s: Seq<char>) -> bool {
    forall|i: int| 0 <= i < s.len() ==> s[i] != '\n'
}

proof fn lemma_no_newline_concat(a: Seq<char>, b: Seq<char>)
    requires
        has_no_newline(a),
        has_no_newline(b),
    ensures
        has_no_newline(a + b),
{
    assert forall|i: int| 0 <= i < (a + b).len() implies (a + b)[i] != '\n' by {
        if i < a.len() {
            assert((a + b)[i] == a[i]);
        } else {
            assert((a + b)[i] == b[i - a.len()]);
        }
    }
}

proof fn lemma_decimal_no_newline(n: nat)
    ensures
        has_no_newline(decimal_chars(n)),
{
    lemma_decimal_chars_digits(n);
    assert forall|i: int| 0 <= i < decimal_chars(n).len() implies decimal_chars(n)[i] != '\n' by {
        assert(is_digit(decimal_chars(n)[i]));
    }
}

proof fn lemma_padded2_no_newline(n: nat)
    ensures
        has_no_newline(padded2_chars(n)),
{
    lemma_decimal_no_newline(n);
    lemma_no_newline_concat(seq!['0'], decimal_chars(n));
}

proof fn lemma_timestamp_no_newline(y: int, mo: nat, d: nat, h: nat, mi: nat, s: nat)
    ensures
        has_no_newline(timestamp_chars(y, mo, d, h, mi, s)),
{
    assert(has_no_newline(year_chars(y))) by {
        if y >= 0 {
            lemma_decimal_no_newline(y as nat);
            lemma_no_newline_concat(seq!['0', '0', '0'], decimal_chars(y as nat));
            lemma_no_newline_concat(seq!['0', '0'], decimal_chars(y as nat));
            lemma_no_newline_concat(seq!['0'], decimal_chars(y as nat));
        } else {
            lemma_decimal_no_newline((-y) as nat);
            lemma_no_newline_concat(seq!['-'], decimal_chars((-y) as nat));
        }
    }
    lemma_padded2_no_newline(mo);
    lemma_padded2_no_newline(d);
    lemma_padded2_no_newline(h);
    lemma_padded2_no_newline(mi);
    lemma_padded2_no_newline(s);
    lemma_no_newline_concat(year_chars(y), seq!['-']);
    lemma_no_newline_concat(year_chars(y) + seq!['-'], padded2_chars(mo));
    lemma_no_newline_concat(year_chars(y) + seq!['-'] + padded2_chars(mo), seq!['-']);
    lemma_no_newline_concat(
        year_chars(y) + seq!['-'] + padded2_chars(mo) + seq!['-'],
        padded2_chars(d),
    );
    lemma_no_newline_concat(
        year_chars(y) + seq!['-'] + padded2_chars(mo) + seq!['-'] + padded2_chars(d),
        seq![' '],
    );
    lemma_no_newline_concat(
        year_chars(y) + seq!['-'] + padded2_chars(mo) + seq!['-'] + padded2_chars(d) + seq![' '],
        padded2_chars(h),
    );
    lemma_no_newline_concat(
        year_chars(y) + seq!['-'] + padded2_chars(mo) + seq!['-'] + padded2_chars(d) + seq![' ']
            + padded2_chars(h),
        seq![':'],
    );
    lemma_no_newline_concat(
        year_chars(y) + seq!['-'] + padded2_chars(mo) + seq!['-'] + padded2_chars(d) + seq![' ']
            + padded2_chars(h) + seq![':'],
        padded2_chars(mi),
    );
    lemma_no_newline_concat(
        year_chars(y) + seq!['-'] + padded2_chars(mo) + seq!['-'] + padded2_chars(d) + seq![' ']
            + padded2_chars(h) + seq![':'] + padded2_chars(mi),
        seq![':'],
    );
    lemma_no_newline_concat(
        year_chars(y) + seq!['-'] + padded2_chars(mo) + seq!['-'] + padded2_chars(d) + seq![' ']
            + padded2_chars(h) + seq![':'] + padded2_chars(mi) + seq![':'],
        padded2_chars(s),
    );
}

/// A log line whose message holds no line break is exactly one line: it ends
/// with the only line break it contains.  Writers that append whole lines
/// therefore never truncate a line or interleave within one, however many of
/// them share the log.
pub proof fn lemma_log_line_single_line(
    y: int,
    mo: nat,
    d: nat,
    h: nat,
    mi: nat,
    s: nat,
    msg: Seq<char>,
)
    requires
        has_no_newline(msg),
    ensures
        ({
            let line = log_line_chars(timestamp_chars(y, mo, d, h, mi, s), msg);
            line.len() > 0 && line.last() == '\n' && forall|i: int|
                0 <= i < line.len() - 1 ==> line[i] != '\n'
        }),
{
    let ts = timestamp_chars(y, mo, d, h, mi, s);
    lemma_timestamp_no_newline(y, mo, d, h, mi, s);
    lemma_no_newline_concat(seq!['['], ts);
    lemma_no_newline_concat(seq!['['] + ts, seq![']', ' ']);
    lemma_no_newline_concat(seq!['['] + ts + seq![']', ' '], msg);
    let head = seq!['['] + ts + seq![']', ' '] + msg;
    let line = log_line_chars(ts, msg);
    assert(line =~= head + seq!['\n']);
    assert(line.last() == '\n');
    assert forall|i: int| 0 <= i < line.len() - 1 implies line[i] != '\n' by {
        assert(line[i] == head[i]);
    }
}

/// The argument list as one command line: the parts separated by single
/// spaces.
pub open spec fn joined_with_spaces(parts: Seq<Seq<char>>) -> Seq<char>
    decreases parts.len(),
{
    if parts.len() == 0 {
        Seq::empty()
    } else if parts.len() == 1 {
        parts[0]
    } else {
        joined_with_spaces(parts.drop_last()) + seq![' '] + parts.last()
    }
}

/// Joins the arguments with single spaces.
pub fn join_args(args: &Vec<String>) -> (r: String)
    ensures
        r@ == joined_with_spaces(args@.map_values(|a: String| a@)),
{
    let mut r = String::new();
    let mut i: usize = 0;
    while i < args.len()
        invariant
            i <= args@.len(),
            r@ == joined_with_spaces(args@.subrange(0, i as int).map_values(|a: String| a@)),
        decreases args@.len() - i,
    {
        let ghost parts = args@.subrange(0, i as int).map_values(|a: String| a@);
        let ghost x = args@[i as int]@;
        proof {
            assert(args@.subrange(0, i + 1 as int).map_values(|a: String| a@) =~= parts.push(x));
            assert(parts.push(x).drop_last() =~= parts);
            assert(parts.push(x).last() == x);
        }
        if i > 0 {
            r.append(" ");
            proof {
                reveal_strlit(" ");
                assert(" "@ =~= seq![' ']);
            }
        }
        r.append(args[i].as_str());
        proof {
            if parts.len() == 0 {
                assert(r@ =~= parts.push(x)[0]);
            }
            assert(r@ =~= joined_with_spaces(parts.push(x)));
        }
        i += 1;
    }
    proof {
        assert(args@.subrange(0, args@.len() as int) =~= args@);
    }
    r
}

/// The log message announcing a spawn attempt: the command line about to run.
pub fn start_message(name: &str, args: &Vec<String>) -> (r: String)
    ensures
        r@ == "Starting process: "@ + name@ + " "@ + joined_with_spaces(
            args@.map_values(|a: String| a@),
        ),
{
    let r = String::from_str("Starting process: ").concat(name).concat(" ").concat(
        join_args(args).as_str(),
    );
    proof {
        assert(r@ =~= "Starting process: "@ + name@ + " "@ + joined_with_spaces(
            args@.map_values(|a: String| a@),
        ));
    }
    r
}

/// The log message recording the new child's PID.
pub fn pid_message(pid: u32) -> (r: String)
    ensures
        r@ == "Process started, PID: "@ + decimal_chars(pid as nat),
{
    let r = String::from_str("Process started, PID: ").concat(format_u32(pid).as_str());
    r
}

/// The log message recording an observed child exit.
pub fn exit_message(success: bool, code: i32) -> (r: String)
    ensures
        success ==> r@ == "Process finished successfully with code 0"@,
        !success ==> r@ == "Process finished with error: code "@ + signed_decimal_chars(
            code as int,
        ),
{
    if success {
        String::from_str("Process finished successfully with code 0")
    } else {
        String::from_str("Process finished with error: code ").concat(format_i32(code).as_str())
    }
}

/// A line of the child's standard output, tagged with its stream.
pub fn stdout_line(line: &str) -> (r: String)
    ensures
        r@ == "[stdout] "@ + line@,
{
    let r = String::from_str("[stdout] ").concat(line);
    r
}

/// A line of the child's standard error, tagged with its stream.
pub fn stderr_line(line: &str) -> (r: String)
    ensures
        r@ == "[stderr] "@ + line@,
{
    let r = String::from_str("[stderr] ").concat(line);
    r
}

} // verus!
