use vstd::prelude::*;

use crate::range::chars_of;
use crate::session::{ProjectLog, SessionRecord};
use crate::time::{datetime_from_str, format_datetime, rfc3339_text, rfc3339_value, secs_in_range, Timestamp};

verus! {

/// Why a project's stored state could not be read.
#[derive(Clone, Debug)]
pub enum StoreError {
    /// The project has never been started: it has no log.
    ProjectNotFound,
    /// A line of the log is not `<start>,<end>` with RFC 3339 instants in
    /// order; it holds the line.
    MalformedLine(String),
}

/// The line that records a session: `<start>,<end>` in RFC 3339, then a newline.
pub open spec fn record_line(rec: SessionRecord) -> Seq<char> {
    rfc3339_text(rec.start.secs as int, rec.start.offset as int) + seq![','] + rfc3339_text(
        rec.end.secs as int,
        rec.end.offset as int,
    ) + seq!['\n']
}

/// The text of a whole log: its records' lines in order.
pub open spec fn log_text(recs: Seq<SessionRecord>) -> Seq<char>
    decreases recs.len(),
{
    if recs.len() == 0 {
        Seq::empty()
    } else {
        log_text(recs.drop_last()) + record_line(recs.last())
    }
}

/// The first index at or after `k` holding `c`, or the length if none does.
pub open spec fn next_index_of(s: Seq<char>, k: int, c: char) -> int
    decreases s.len() - k,
{
    if k < 0 || k >= s.len() {
        s.len() as int
    } else if s[k] == c {
        k
    } else {
        next_index_of(s, k + 1, c)
    }
}

/// The timestamp an RFC 3339 field denotes, where it is in range.
pub open spec fn field_value(f: Seq<char>) -> Option<Timestamp> {
    match rfc3339_value(f) {
        Some(v) => if secs_in_range(v.0 as int) {
            Some(Timestamp { secs: v.0, offset: v.1 })
        } else {
            None
        },
        None => None,
    }
}

/// The session a non-empty line records: the text up to its first comma is
/// the start, the rest the end, and the start is not after the end.
pub open spec fn spec_parse_line(l: Seq<char>) -> Option<SessionRecord> {
    let c = next_index_of(l, 0, ',');
    if c >= l.len() {
        None
    } else {
        match (field_value(l.subrange(0, c)), field_value(l.subrange(c + 1, l.len() as int))) {
            (Some(a), Some(b)) => if a.secs <= b.secs {
                Some(SessionRecord { start: a, end: b })
            } else {
                None
            },
            _ => None,
        }
    }
}

/// The records of the log text from position `k` on; empty lines are skipped
/// and the first malformed line is the error.
pub open spec fn spec_parse_log_from(s: Seq<char>, k: int) -> Result<Seq<SessionRecord>, Seq<char>>
    decreases s.len() - k,
{
    if k < 0 || k >= s.len() {
        Ok(Seq::empty())
    } else {
        let e = next_index_of(s, k, '\n');
        let line = s.subrange(k, e);
        let rest = if k <= e < s.len() {
            spec_parse_log_from(s, e + 1)
        } else {
            Ok(Seq::empty())
        };
        if line.len() == 0 {
            rest
        } else {
            match spec_parse_line(line) {
                None => Err(line),
                Some(r) => match rest {
                    Ok(rs) => Ok(seq![r] + rs),
                    Err(x) => Err(x),
                },
            }
        }
    }
}

pub open spec fn spec_parse_log(s: Seq<char>) -> Result<Seq<SessionRecord>, Seq<char>> {
    spec_parse_log_from(s, 0)
}

pub open spec fn prepend(p: Seq<SessionRecord>, r: Result<Seq<SessionRecord>, Seq<char>>) -> Result<
    Seq<SessionRecord>,
    Seq<char>,
> {
    match r {
        Ok(rs) => Ok(p + rs),
        Err(x) => Err(x),
    }
}

/// The line that records `rec`.
pub fn format_record(rec: &SessionRecord) -> (r: String)
    requires
        rec.wf(),
    ensures
        r@ == record_line(*rec),
{
    let mut r = format_datetime(&rec.start);
    let end = format_datetime(&rec.end);
    proof {
        reveal_strlit(",");
        reveal_strlit("\n");
    }
    r.append(",");
    r.append(end.as_str());
    r.append("\n");
    r
}

/// The text of a whole log.
pub fn format_log(recs: &Vec<SessionRecord>) -> (r: String)
    requires
        forall|i: int| 0 <= i < recs@.len() ==> (#[trigger] recs@[i]).wf(),
    ensures
        r@ == log_text(recs@),
{
    let mut r = String::new();
    let mut i: usize = 0;
    while i < recs.len()
        invariant
            i <= recs@.len(),
            forall|j: int| 0 <= j < recs@.len() ==> (#[trigger] recs@[j]).wf(),
            r@ == log_text(recs@.subrange(0, i as int)),
        decreases recs@.len() - i,
    {
        let line = format_record(&recs[i]);
        proof {
            let pre = recs@.subrange(0, i as int + 1);
            assert(pre.drop_last() =~= recs@.subrange(0, i as int));
            assert(pre.last() == recs@[i as int]);
        }
        r.append(line.as_str());
        i = i + 1;
    }
    assert(recs@.subrange(0, recs@.len() as int) =~= recs@);
    r
}

/// The first index in `lo..hi` holding `c`, or `hi`.
fn find_in(s: &Vec<char>, lo: usize, hi: usize, c: char) -> (r: usize)
    requires
        lo <= hi <= s@.len(),
    ensures
        lo <= r <= hi,
        r - lo == next_index_of(s@.subrange(lo as int, hi as int), 0, c),
{
    let ghost t = s@.subrange(lo as int, hi as int);
    let mut i: usize = lo;
    while i < hi
        invariant
            lo <= i <= hi,
            hi <= s@.len(),
            t == s@.subrange(lo as int, hi as int),
            next_index_of(t, 0, c) == next_index_of(t, i - lo, c),
        decreases hi - i,
    {
        if s[i] == c {
            assert(t[i - lo] == s@[i as int]);
            return i;
        }
        assert(t[i - lo] == s@[i as int]);
        i = i + 1;
    }
    i
}

proof fn lemma_index_shift(s: Seq<char>, lo: int, j: int, c: char)
    requires
        0 <= lo <= s.len(),
        0 <= j,
    ensures
        next_index_of(s.subrange(lo, s.len() as int), j, c) + lo == next_index_of(s, lo + j, c),
    decreases s.len() - lo - j,
{
    let t = s.subrange(lo, s.len() as int);
    if j < t.len() {
        assert(t[j] == s[lo + j]);
        if t[j] != c {
            lemma_index_shift(s, lo, j + 1, c);
        }
    }
}

/// The session that the non-empty line `input[lo..hi]` records.
fn parse_line(input: &str, s: &Vec<char>, lo: usize, hi: usize) -> (r: Option<SessionRecord>)
    requires
        s@ == input@,
        lo <= hi <= s@.len(),
    ensures
        r == spec_parse_line(s@.subrange(lo as int, hi as int)),
{
    let ghost l = s@.subrange(lo as int, hi as int);
    let c = find_in(s, lo, hi, ',');
    if c >= hi {
        return None;
    }
    let first = input.substring_char(lo, c);
    let second = input.substring_char(c + 1, hi);
    assert(first@ =~= l.subrange(0, c - lo));
    assert(second@ =~= l.subrange(c - lo + 1, l.len() as int));
    let a = datetime_from_str(first);
    let b = datetime_from_str(second);
    assert(a == field_value(first@));
    assert(b == field_value(second@));
    match (a, b) {
        (Some(a), Some(b)) => if a.secs <= b.secs {
            Some(SessionRecord { start: a, end: b })
        } else {
            None
        },
        _ => None,
    }
}

/// The records of a log text: one `<start>,<end>` line per session, empty
/// lines skipped; the first malformed line is the error.
pub fn parse_log(contents: &str) -> (r: Result<Vec<SessionRecord>, StoreError>)
    ensures
        match (r, spec_parse_log(contents@)) {
            (Ok(v), Ok(recs)) => v@ == recs,
            (Err(StoreError::MalformedLine(l)), Err(line)) => l@ == line,
            _ => false,
        },
{
    let s = chars_of(contents);
    let n = s.len();
    let mut out: Vec<SessionRecord> = Vec::new();
    let mut k: usize = 0;
    while k < n
        invariant
            s@ == contents@,
            n == s@.len(),
            k <= n,
            spec_parse_log(s@) == prepend(out@, spec_parse_log_from(s@, k as int)),
        decreases n - k,
    {
        let e = find_in(&s, k, n, '\n');
        proof {
            lemma_index_shift(s@, k as int, 0, '\n');
            assert(s@.subrange(k as int, n as int) =~= s@.subrange(k as int, s@.len() as int));
        }
        let ghost rest = if e < n {
            spec_parse_log_from(s@, e + 1)
        } else {
            Ok(Seq::empty())
        };
        if e > k {
            match parse_line(contents, &s, k, e) {
                None => {
                    let line = contents.substring_char(k, e).to_owned();
                    return Err(StoreError::MalformedLine(line));
                },
                Some(rec) => {
                    proof {
                        match rest {
                            Ok(rs) => {
                                assert(out@ + (seq![rec] + rs) =~= out@.push(rec) + rs);
                            },
                            Err(_) => {},
                        }
                    }
                    out.push(rec);
                },
            }
        }
        if e >= n {
            k = n;
        } else {
            k = e + 1;
        }
    }
    assert(out@ + Seq::<SessionRecord>::empty() =~= out@);
    Ok(out)
}

/// A project's state from its stored log (`None`: never started) and the
/// start of its open session, if its marker exists.
pub fn load_project(contents: Option<&str>, open: Option<Timestamp>) -> (r: Result<ProjectLog, StoreError>)
    ensures
        contents is None ==> r matches Err(StoreError::ProjectNotFound),
        contents matches Some(c) ==> match (r, spec_parse_log(c@)) {
            (Ok(p), Ok(recs)) => p@.records == recs && p@.open == open,
            (Err(StoreError::MalformedLine(l)), Err(line)) => l@ == line,
            _ => false,
        },
{
    match contents {
        None => Err(StoreError::ProjectNotFound),
        Some(c) => match parse_log(c) {
            Ok(records) => Ok(ProjectLog { records, open }),
            Err(e) => Err(e),
        },
    }
}

} // verus!
