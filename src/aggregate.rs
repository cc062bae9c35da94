use vstd::prelude::*;

use crate::range::DateRange;
use crate::session::SessionRecord;
use crate::time::Timestamp;

verus! {

/// An instant lies in the inclusive range; every instant lies in no range.
pub open spec fn in_range(t: Timestamp, range: Option<DateRange>) -> bool {
    match range {
        None => true,
        Some(dr) => dr.0.secs <= t.secs && t.secs <= dr.1.secs,
    }
}

/// A session counts toward a range when it starts within it.
pub open spec fn included(rec: SessionRecord, range: Option<DateRange>) -> bool {
    in_range(rec.start, range)
}

/// The sessions that count toward `range`, in log order.
pub open spec fn spec_selected(log: Seq<SessionRecord>, range: Option<DateRange>) -> Seq<SessionRecord>
    decreases log.len(),
{
    if log.len() == 0 {
        Seq::empty()
    } else {
        let rest = spec_selected(log.drop_last(), range);
        if included(log.last(), range) {
            rest.push(log.last())
        } else {
            rest
        }
    }
}

/// Total length in seconds of the sessions that count toward `range`.
pub open spec fn spec_total(log: Seq<SessionRecord>, range: Option<DateRange>) -> int
    decreases log.len(),
{
    if log.len() == 0 {
        0
    } else {
        spec_total(log.drop_last(), range) + if included(log.last(), range) {
            log.last().duration()
        } else {
            0
        }
    }
}

pub open spec fn all_wf(log: Seq<SessionRecord>) -> bool {
    forall|i: int| 0 <= i < log.len() ==> (#[trigger] log[i]).wf()
}

/// Whether `rec` starts within the inclusive `range` (always, without a range).
pub fn session_in_range(rec: &SessionRecord, range: &Option<DateRange>) -> (r: bool)
    ensures
        r == included(*rec, *range),
{
    match range {
        None => true,
        Some(dr) => dr.0.secs <= rec.start.secs && rec.start.secs <= dr.1.secs,
    }
}

proof fn lemma_total_bounds(log: Seq<SessionRecord>, range: Option<DateRange>)
    requires
        all_wf(log),
    ensures
        0 <= spec_total(log, range) <= log.len() * 6_000_000_000_000,
    decreases log.len(),
{
    if log.len() > 0 {
        assert(all_wf(log.drop_last())) by {
            assert forall|i: int| 0 <= i < log.drop_last().len() implies (
            #[trigger] log.drop_last()[i]).wf() by {
                assert(log.drop_last()[i] == log[i]);
            }
        }
        lemma_total_bounds(log.drop_last(), range);
        assert(log.last().wf());
    }
}

/// Total seconds worked over the sessions that start within `range`.
pub fn total_seconds(log: &Vec<SessionRecord>, range: &Option<DateRange>) -> (r: i128)
    requires
        all_wf(log@),
    ensures
        r == spec_total(log@, *range),
{
    let mut total: i128 = 0;
    let mut i: usize = 0;
    while i < log.len()
        invariant
            i <= log@.len(),
            all_wf(log@),
            total == spec_total(log@.subrange(0, i as int), *range),
        decreases log@.len() - i,
    {
        let rec = log[i];
        proof {
            let pre = log@.subrange(0, i as int + 1);
            assert(pre.drop_last() =~= log@.subrange(0, i as int));
            assert(pre.last() == rec);
            assert(all_wf(pre)) by {
                assert forall|j: int| 0 <= j < pre.len() implies (#[trigger] pre[j]).wf() by {
                    assert(pre[j] == log@[j]);
                }
            }
            lemma_total_bounds(pre, *range);
            assert(pre.len() * 6_000_000_000_000 <= 0xffff_ffff_ffff_ffff * 6_000_000_000_000int)
                by (nonlinear_arith)
                requires
                    pre.len() <= 0xffff_ffff_ffff_ffff,
            ;
        }
        if session_in_range(&rec, range) {
            total = total + (rec.length_secs() as i128);
        }
        i = i + 1;
    }
    assert(log@.subrange(0, log@.len() as int) =~= log@);
    total
}

/// The sessions that start within `range`, in log order.
pub fn list_sessions(log: &Vec<SessionRecord>, range: &Option<DateRange>) -> (r: Vec<SessionRecord>)
    ensures
        r@ == spec_selected(log@, *range),
{
    let mut out: Vec<SessionRecord> = Vec::new();
    let mut i: usize = 0;
    while i < log.len()
        invariant
            i <= log@.len(),
            out@ == spec_selected(log@.subrange(0, i as int), *range),
        decreases log@.len() - i,
    {
        let rec = log[i];
        proof {
            let pre = log@.subrange(0, i as int + 1);
            assert(pre.drop_last() =~= log@.subrange(0, i as int));
            assert(pre.last() == rec);
        }
        if session_in_range(&rec, range) {
            out.push(rec);
        }
        i = i + 1;
    }
    assert(log@.subrange(0, log@.len() as int) =~= log@);
    out
}

/// The range is inclusive at its upper end: a session starting exactly at
/// `to` counts, one starting a second later does not.
pub proof fn lemma_upper_bound_inclusive(dr: DateRange, at_to: SessionRecord, after_to: SessionRecord)
    requires
        dr.0.secs <= dr.1.secs,
        at_to.start.secs == dr.1.secs,
        after_to.start.secs == dr.1.secs + 1,
    ensures
        spec_selected(seq![at_to], Some(dr)) == seq![at_to],
        spec_selected(seq![after_to], Some(dr)) == Seq::<SessionRecord>::empty(),
        spec_selected(seq![at_to, after_to], Some(dr)) == seq![at_to],
{
    let e = Seq::<SessionRecord>::empty();
    assert(spec_selected(e, Some(dr)) == e);
    assert(seq![at_to].drop_last() =~= e);
    assert(seq![at_to].last() == at_to);
    assert(seq![after_to].drop_last() =~= e);
    assert(seq![after_to].last() == after_to);
    assert(e.push(at_to) =~= seq![at_to]);
    assert(spec_selected(seq![at_to], Some(dr)) == seq![at_to]);
    assert(seq![at_to, after_to].drop_last() =~= seq![at_to]);
    assert(seq![at_to, after_to].last() == after_to);
}

} // verus!
