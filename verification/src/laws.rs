//! Laws of the statistics store, stated over [`StatView`] and the `*_spec`
//! transition functions and proved once for all stores.

use vstd::prelude::*;

use crate::stats::StatError;
use crate::stats::StatView;
use crate::stats::default_work_name;
use crate::stats::end_job_spec;
use crate::stats::end_work_spec;
use crate::stats::job_total;
use crate::stats::part_total;
use crate::stats::start_work_spec;
use crate::stats::work_elapsed_spec;

verus! {

/// The sum of a sequence of durations.
pub open spec fn sum_nanos(ds: Seq<u64>) -> int
    decreases ds.len(),
{
    if ds.len() == 0 {
        0
    } else {
        ds[0] + sum_nanos(ds.skip(1))
    }
}

/// The store after recording each duration of `ds` in turn for one
/// job/part/work triple.
pub open spec fn record_all(
    v: StatView,
    job: Seq<char>,
    part: Seq<char>,
    work: Seq<char>,
    ds: Seq<u64>,
) -> StatView
    decreases ds.len(),
{
    if ds.len() == 0 {
        v
    } else {
        record_all(end_job_spec(v, job, part, work, ds[0]).0, job, part, work, ds.skip(1))
    }
}

proof fn lemma_sum_nanos_nonneg(ds: Seq<u64>)
    ensures
        sum_nanos(ds) >= 0,
    decreases ds.len(),
{
    if ds.len() > 0 {
        lemma_sum_nanos_nonneg(ds.skip(1));
    }
}

/// Accumulation is additive: recording durations d1..dN for one job of one
/// part, while `work` is started and not yet ended, raises the job's total
/// and the part's total by exactly the sum of the durations; in particular
/// both totals reach at least that sum, and a part first seen by these
/// records ends exactly at it.
pub proof fn lemma_accumulation_additive(
    v: StatView,
    job: Seq<char>,
    part: Seq<char>,
    work: Seq<char>,
    ds: Seq<u64>,
)
    requires
        v.starts.contains_key(work),
        !v.ends.contains_key(work),
        job_total(v, job, part) + sum_nanos(ds) <= u64::MAX,
        part_total(v, part) + sum_nanos(ds) <= u64::MAX,
    ensures
        ({
            let w = record_all(v, job, part, work, ds);
            &&& job_total(w, job, part) == job_total(v, job, part) + sum_nanos(ds)
            &&& part_total(w, part) == part_total(v, part) + sum_nanos(ds)
            &&& part_total(w, part) >= sum_nanos(ds)
            &&& !v.parts.contains_key(part) ==> part_total(w, part) == sum_nanos(ds)
            &&& part_total(v, part) == job_total(v, job, part) ==> part_total(w, part)
                == job_total(w, job, part)
            &&& w.starts == v.starts
            &&& w.ends == v.ends
        }),
    decreases ds.len(),
{
    if ds.len() > 0 {
        lemma_sum_nanos_nonneg(ds.skip(1));
        let v1 = end_job_spec(v, job, part, work, ds[0]).0;
        assert(job_total(v1, job, part) == job_total(v, job, part) + ds[0]);
        assert(part_total(v1, part) == part_total(v, part) + ds[0]);
        lemma_accumulation_additive(v1, job, part, work, ds.skip(1));
    }
}

/// No double counting after an end: once a session's end is recorded, a
/// subsequent job record naming that session succeeds but leaves the store,
/// and with it every part and job total, unchanged.
pub proof fn lemma_no_double_count_after_end(
    v: StatView,
    work: Seq<char>,
    now: u64,
    job: Seq<char>,
    part: Seq<char>,
    d: u64,
)
    requires
        v.starts.contains_key(work),
        now >= v.starts[work],
    ensures
        end_work_spec(v, work, now).1 == Ok::<(), StatError>(()),
        ({
            let v1 = end_work_spec(v, work, now).0;
            &&& end_job_spec(v1, job, part, work, d).0 == v1
            &&& end_job_spec(v1, job, part, work, d).1 == Ok::<(), StatError>(())
            &&& part_total(end_job_spec(v1, job, part, work, d).0, part) == part_total(v1, part)
            &&& job_total(end_job_spec(v1, job, part, work, d).0, job, part) == job_total(
                v1,
                job,
                part,
            )
        }),
{
}

/// Monotonic clock: after a session starts at `t1`, ending it at a `t2`
/// earlier than `t1` is exactly the consistency error and leaves the store
/// untouched, while ending it at any `t2 >= t1` succeeds.
pub proof fn lemma_clock_regression(v: StatView, work: Seq<char>, t1: u64, t2: u64)
    requires
        !v.starts.contains_key(work),
    ensures
        ({
            let v1 = start_work_spec(v, work, t1).0;
            &&& (t2 < t1 ==> end_work_spec(v1, work, t2).1 == Err::<(), StatError>(
                StatError::ClockRegression,
            ) && end_work_spec(v1, work, t2).0 == v1)
            &&& (t2 >= t1 ==> end_work_spec(v1, work, t2).1 == Ok::<(), StatError>(()))
        }),
{
}

/// A duplicate start is rejected: the second start of one name without an
/// intervening end fails with the usage error, changes nothing, and the
/// first recorded start instant survives.
pub proof fn lemma_duplicate_start_rejected(v: StatView, work: Seq<char>, t1: u64, t2: u64)
    requires
        !v.starts.contains_key(work),
    ensures
        ({
            let v1 = start_work_spec(v, work, t1).0;
            &&& start_work_spec(v, work, t1).1 == Ok::<(), StatError>(())
            &&& start_work_spec(v1, work, t2).1 == Err::<(), StatError>(StatError::DuplicateStart)
            &&& start_work_spec(v1, work, t2).0 == v1
            &&& v1.starts[work] == t1
            &&& start_work_spec(v1, work, t2).0.starts[work] == t1
        }),
{
}

/// Queries for names never recorded yield a zero duration, not an error.
pub proof fn lemma_unknown_names_zero(v: StatView, job: Seq<char>, part: Seq<char>)
    ensures
        !v.parts.contains_key(part) ==> part_total(v, part) == 0 && job_total(v, job, part) == 0,
        v.parts.contains_key(part) && !v.parts[part].jobs.contains_key(job) ==> job_total(
            v,
            job,
            part,
        ) == 0,
{
}

/// The default session may be queried while still running: the query
/// succeeds, and its value never decreases as the clock advances.
pub proof fn lemma_default_live_query_monotonic(v: StatView, t1: u64, t2: u64)
    requires
        v.starts.contains_key(default_work_name()),
        !v.ends.contains_key(default_work_name()),
        t1 <= t2,
    ensures
        ({
            let r1 = work_elapsed_spec(v, default_work_name(), t1);
            let r2 = work_elapsed_spec(v, default_work_name(), t2);
            &&& r1 is Ok
            &&& r2 is Ok
            &&& r1->Ok_0 <= r2->Ok_0
        }),
{
}

} // verus!
