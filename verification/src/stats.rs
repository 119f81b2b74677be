//! The timing statistics store.
//!
//! A [`Statistic`] records when named work sessions start and end and
//! accumulates, per part and per job, how many nanoseconds were spent. Its
//! mathematical content is a [`StatView`]; every operation's contract states
//! the exact new view and result through the `*_spec` functions below.

use vstd::prelude::*;

use crate::assoc::assoc_find;
use crate::assoc::assoc_map;
use crate::assoc::distinct_keys;
use crate::assoc::lemma_assoc_map_dom;
use crate::assoc::lemma_assoc_map_index;
use crate::assoc::lemma_assoc_map_push;
use crate::assoc::lemma_assoc_map_update;
use crate::clock::now_nanos;

verus! {

/// How a store operation can fail.
///
/// `DuplicateStart`, `NotStarted` and `NotEnded` are usage errors: the
/// instrumentation call sites are mismatched. `ClockRegression` is the
/// consistency error: the clock read an end instant strictly earlier than
/// the matching start, and no percentage derived from such data would mean
/// anything.
#[derive(Clone, Copy, PartialEq, Eq, Structural, Debug)]
pub enum StatError {
    /// A session was started twice without being ended in between.
    DuplicateStart,
    /// A session was ended or queried before ever being started.
    NotStarted,
    /// A running session other than the default one was queried for its
    /// elapsed time.
    NotEnded,
    /// The clock read an end instant earlier than the recorded start.
    ClockRegression,
}

/// Mathematical content of one part: nanoseconds per job, and the part-wide
/// total.
#[verifier::ext_equal]
pub ghost struct PartView {
    pub jobs: Map<Seq<char>, u64>,
    pub total: u64,
}

/// Mathematical content of the whole store: start and end instants per
/// session name, and the accumulated durations per part.
#[verifier::ext_equal]
pub ghost struct StatView {
    pub starts: Map<Seq<char>, u64>,
    pub ends: Map<Seq<char>, u64>,
    pub parts: Map<Seq<char>, PartView>,
}

/// The distinguished session that is started when the store is built and may
/// be queried while still running.
pub open spec fn default_work_name() -> Seq<char> {
    "DefaultWork"@
}

/// The name of the default session, for callers that omit one.
pub fn default_work() -> (s: &'static str)
    ensures
        s@ == default_work_name(),
{
    "DefaultWork"
}

/// `a - b`, at zero when the clock ran backwards.
pub open spec fn sat_sub(a: u64, b: u64) -> u64 {
    if a >= b {
        (a - b) as u64
    } else {
        0
    }
}

/// `a + b`, capped at the largest representable duration. The executable
/// operations require the cap is never reached.
pub open spec fn add_cap(a: u64, b: u64) -> u64 {
    if a + b <= u64::MAX {
        (a + b) as u64
    } else {
        u64::MAX
    }
}

/// The accumulated total for `part`; zero when the part was never recorded.
pub open spec fn part_total(v: StatView, part: Seq<char>) -> u64 {
    if v.parts.contains_key(part) {
        v.parts[part].total
    } else {
        0
    }
}

/// The accumulated duration of `job` within `part`; zero when either is
/// unknown.
pub open spec fn job_total(v: StatView, job: Seq<char>, part: Seq<char>) -> u64 {
    if v.parts.contains_key(part) && v.parts[part].jobs.contains_key(job) {
        v.parts[part].jobs[job]
    } else {
        0
    }
}

/// One accumulation into a part: `d` more nanoseconds for `job`, and `d`
/// more on the part's total.
pub open spec fn part_record(p: PartView, job: Seq<char>, d: u64) -> PartView {
    let j = if p.jobs.contains_key(job) {
        p.jobs[job]
    } else {
        0u64
    };
    PartView { jobs: p.jobs.insert(job, add_cap(j, d)), total: add_cap(p.total, d) }
}

/// One accumulation into the store, creating the part at zero if absent.
pub open spec fn record_step(v: StatView, job: Seq<char>, part: Seq<char>, d: u64) -> StatView {
    let p = if v.parts.contains_key(part) {
        v.parts[part]
    } else {
        PartView { jobs: Map::empty(), total: 0u64 }
    };
    StatView { parts: v.parts.insert(part, part_record(p, job, d)), ..v }
}

/// What starting a session does: record `now` as its start, or reject a
/// duplicate start untouched.
pub open spec fn start_work_spec(v: StatView, msg: Seq<char>, now: u64) -> (StatView, Result<
    (),
    StatError,
>) {
    if v.starts.contains_key(msg) {
        (v, Err(StatError::DuplicateStart))
    } else {
        (StatView { starts: v.starts.insert(msg, now), ..v }, Ok(()))
    }
}

/// What ending a session does: record `now` as its end, or fail on a session
/// never started or on a clock that ran backwards, leaving the store
/// untouched.
pub open spec fn end_work_spec(v: StatView, msg: Seq<char>, now: u64) -> (StatView, Result<
    (),
    StatError,
>) {
    if !v.starts.contains_key(msg) {
        (v, Err(StatError::NotStarted))
    } else if now < v.starts[msg] {
        (v, Err(StatError::ClockRegression))
    } else {
        (StatView { ends: v.ends.insert(msg, now), ..v }, Ok(()))
    }
}

/// What recording a job does: fail on a session never started; silently keep
/// the store as it is once the session has ended; otherwise accumulate.
pub open spec fn end_job_spec(
    v: StatView,
    job: Seq<char>,
    part: Seq<char>,
    work: Seq<char>,
    d: u64,
) -> (StatView, Result<(), StatError>) {
    if !v.starts.contains_key(work) {
        (v, Err(StatError::NotStarted))
    } else if v.ends.contains_key(work) {
        (v, Ok(()))
    } else {
        (record_step(v, job, part, d), Ok(()))
    }
}

/// The elapsed time of a session when the clock reads `now`: end minus start
/// once ended; start to `now` for the running default session; an error for
/// any other running or unknown session.
pub open spec fn work_elapsed_spec(v: StatView, work: Seq<char>, now: u64) -> Result<
    u64,
    StatError,
> {
    if !v.starts.contains_key(work) {
        Err(StatError::NotStarted)
    } else if v.ends.contains_key(work) {
        Ok(sat_sub(v.ends[work], v.starts[work]))
    } else if work == default_work_name() {
        Ok(sat_sub(now, v.starts[work]))
    } else {
        Err(StatError::NotEnded)
    }
}

/// Every recorded end belongs to a started session and lies at or after the
/// matching start.
pub open spec fn time_consistent(v: StatView) -> bool {
    forall|k: Seq<char>|
        #[trigger] v.ends.contains_key(k) ==> v.starts.contains_key(k) && v.starts[k] <= v.ends[k]
}

/// A well-formed store never holds an end instant strictly before its start:
/// the temporal-ordering invariant every percentage rests on.
pub proof fn lemma_wf_time_consistent(s: &Statistic)
    requires
        s.wf(),
    ensures
        time_consistent(s@),
{
}

/// The two-level accumulator for one part.
pub(crate) struct PartAcc {
    pub(crate) jobs: Vec<(String, u64)>,
    pub(crate) total: u64,
}

impl View for PartAcc {
    type V = PartView;

    closed spec fn view(&self) -> PartView {
        PartView { jobs: assoc_map(self.jobs@), total: self.total }
    }
}

impl PartAcc {
    pub(crate) closed spec fn wf(&self) -> bool {
        distinct_keys(self.jobs@)
    }

    /// Accumulates `time` more nanoseconds for `job`, creating its entry at
    /// zero on first occurrence, and raises the part total alike.
    fn add_job_time(&mut self, job: String, time: u64)
        requires
            old(self).wf(),
            old(self)@.total + time <= u64::MAX,
            (if old(self)@.jobs.contains_key(job@) {
                old(self)@.jobs[job@]
            } else {
                0u64
            }) + time <= u64::MAX,
        ensures
            final(self).wf(),
            final(self)@ == part_record(old(self)@, job@, time),
    {
        let ghost j0 = self.jobs@;
        match assoc_find(&self.jobs, &job) {
            Some(i) => {
                proof {
                    lemma_assoc_map_index(j0, i as int);
                }
                let e = &mut self.jobs[i];
                e.1 = e.1 + time;
                proof {
                    lemma_assoc_map_update(j0, i as int, self.jobs@[i as int]);
                }
            },
            None => {
                proof {
                    lemma_assoc_map_dom(j0, job@);
                }
                self.jobs.push((job, time));
                proof {
                    lemma_assoc_map_push(j0, self.jobs@);
                }
            },
        }
        self.total = self.total + time;
        proof {
            assert(self@ =~= part_record(old(self)@, job@, time));
        }
    }
}

/// The timing statistics store: start and end instants per session, and the
/// per-part, per-job accumulated nanoseconds.
pub struct Statistic {
    starts: Vec<(String, u64)>,
    ends: Vec<(String, u64)>,
    parts: Vec<(String, PartAcc)>,
}

impl View for Statistic {
    type V = StatView;

    closed spec fn view(&self) -> StatView {
        StatView {
            starts: assoc_map(self.starts@),
            ends: assoc_map(self.ends@),
            parts: assoc_map(self.parts@),
        }
    }
}

impl Statistic {
    /// The store's internal invariant: each table keyed at most once per
    /// name, and no end instant before its start.
    pub closed spec fn wf(&self) -> bool {
        &&& distinct_keys(self.starts@)
        &&& distinct_keys(self.ends@)
        &&& distinct_keys(self.parts@)
        &&& (forall|i: int|
            0 <= i < self.parts@.len() ==> (#[trigger] self.parts@[i].1).wf())
        &&& time_consistent(self@)
    }

    /// A fresh store, with the default session already started at the
    /// current clock reading and nothing else recorded.
    pub fn new() -> (s: Statistic)
        ensures
            s.wf(),
            s@.starts.dom() =~= set![default_work_name()],
            s@.ends =~= Map::<Seq<char>, u64>::empty(),
            s@.parts =~= Map::<Seq<char>, PartView>::empty(),
    {
        let mut s = Statistic { starts: Vec::new(), ends: Vec::new(), parts: Vec::new() };
        let now = now_nanos();
        let _ = s.start_work_at(default_work(), now);
        s
    }

    /// Records `now` as the start instant of session `msg`; a second start
    /// without an intervening re-initialization is the duplicate-start usage
    /// error and leaves the store untouched.
    pub fn start_work_at(&mut self, msg: &str, now: u64) -> (r: Result<(), StatError>)
        requires
            old(self).wf(),
        ensures
            final(self).wf(),
            r == start_work_spec(old(self)@, msg@, now).1,
            final(self)@ == start_work_spec(old(self)@, msg@, now).0,
            r is Ok <==> !old(self)@.starts.contains_key(msg@),
    {
        let key: String = msg.to_owned();
        let ghost s0 = self.starts@;
        proof {
            lemma_assoc_map_dom(s0, key@);
        }
        match assoc_find(&self.starts, &key) {
            Some(_) => Err(StatError::DuplicateStart),
            None => {
                self.starts.push((key, now));
                proof {
                    lemma_assoc_map_push(s0, self.starts@);
                    assert(self@ =~= start_work_spec(old(self)@, msg@, now).0);
                }
                Ok(())
            },
        }
    }

    /// Starts session `msg` at the current clock reading.
    pub fn start_work(&mut self, msg: &str) -> (r: Result<(), StatError>)
        requires
            old(self).wf(),
        ensures
            final(self).wf(),
            r is Ok <==> !old(self)@.starts.contains_key(msg@),
            old(self)@.starts.contains_key(msg@) ==> r == Err::<(), StatError>(
                StatError::DuplicateStart,
            ) && final(self)@ == old(self)@,
            !old(self)@.starts.contains_key(msg@) ==> (exists|t: u64|
                final(self)@ == #[trigger] start_work_spec(old(self)@, msg@, t).0),
    {
        let now = now_nanos();
        let r = self.start_work_at(msg, now);
        proof {
            if !old(self)@.starts.contains_key(msg@) {
                assert(self@ == start_work_spec(old(self)@, msg@, now).0);
            }
        }
        r
    }

    /// Records `now` as the end instant of session `msg`. Fails on a session
    /// never started, and fails with the consistency error when `now` lies
    /// strictly before the recorded start; either failure leaves the store
    /// untouched.
    pub fn end_work_at(&mut self, msg: &str, now: u64) -> (r: Result<(), StatError>)
        requires
            old(self).wf(),
        ensures
            final(self).wf(),
            r == end_work_spec(old(self)@, msg@, now).1,
            final(self)@ == end_work_spec(old(self)@, msg@, now).0,
    {
        let key: String = msg.to_owned();
        let ghost s0 = self.starts@;
        let ghost e0 = self.ends@;
        proof {
            lemma_assoc_map_dom(s0, key@);
            lemma_assoc_map_dom(e0, key@);
        }
        let start: u64 = match assoc_find(&self.starts, &key) {
            Some(i) => {
                proof {
                    lemma_assoc_map_index(s0, i as int);
                }
                self.starts[i].1
            },
            None => {
                return Err(StatError::NotStarted);
            },
        };
        if now < start {
            return Err(StatError::ClockRegression);
        }
        match assoc_find(&self.ends, &key) {
            Some(i) => {
                let e = &mut self.ends[i];
                e.1 = now;
                proof {
                    lemma_assoc_map_update(e0, i as int, self.ends@[i as int]);
                }
            },
            None => {
                self.ends.push((key, now));
                proof {
                    lemma_assoc_map_push(e0, self.ends@);
                }
            },
        }
        proof {
            assert(self@ =~= end_work_spec(old(self)@, msg@, now).0);
        }
        Ok(())
    }

    /// Ends session `msg` at the current clock reading. Whatever the clock
    /// returned, the outcome is `end_work_spec` of that reading: an end is
    /// recorded no earlier than the start, or the store is left untouched
    /// with the error named.
    pub fn end_work(&mut self, msg: &str) -> (r: Result<(), StatError>)
        requires
            old(self).wf(),
        ensures
            final(self).wf(),
            !old(self)@.starts.contains_key(msg@) ==> r == Err::<(), StatError>(
                StatError::NotStarted,
            ) && final(self)@ == old(self)@,
            old(self)@.starts.contains_key(msg@) ==> (exists|t: u64|
                final(self)@ == #[trigger] end_work_spec(old(self)@, msg@, t).0 && r
                    == end_work_spec(old(self)@, msg@, t).1),
    {
        let now = now_nanos();
        let r = self.end_work_at(msg, now);
        proof {
            if old(self)@.starts.contains_key(msg@) {
                assert(self@ == end_work_spec(old(self)@, msg@, now).0 && r == end_work_spec(
                    old(self)@,
                    msg@,
                    now,
                ).1);
            }
        }
        r
    }

    /// Accumulates `time` nanoseconds for `msg` under `part`, attributed to
    /// session `work`. Fails on a session never started; once `work` has
    /// ended the call is a silent no-op, so late timers of a finished
    /// session never count twice.
    pub fn end_job(&mut self, msg: &str, part: &str, work: &str, time: u64) -> (r: Result<
        (),
        StatError,
    >)
        requires
            old(self).wf(),
            (old(self)@.starts.contains_key(work@) && !old(self)@.ends.contains_key(work@)) ==> (
            part_total(old(self)@, part@) + time <= u64::MAX && job_total(old(self)@, msg@, part@)
                + time <= u64::MAX),
        ensures
            final(self).wf(),
            r == end_job_spec(old(self)@, msg@, part@, work@, time).1,
            final(self)@ == end_job_spec(old(self)@, msg@, part@, work@, time).0,
    {
        let work_key: String = work.to_owned();
        proof {
            lemma_assoc_map_dom(self.starts@, work_key@);
            lemma_assoc_map_dom(self.ends@, work_key@);
        }
        if assoc_find(&self.starts, &work_key).is_none() {
            return Err(StatError::NotStarted);
        }
        if assoc_find(&self.ends, &work_key).is_some() {
            return Ok(());
        }
        let part_key: String = part.to_owned();
        let job_key: String = msg.to_owned();
        let ghost p0 = self.parts@;
        match assoc_find(&self.parts, &part_key) {
            Some(i) => {
                proof {
                    lemma_assoc_map_index(p0, i as int);
                }
                let e = &mut self.parts[i];
                e.1.add_job_time(job_key, time);
                proof {
                    lemma_assoc_map_update(p0, i as int, self.parts@[i as int]);
                    assert(self@ =~= end_job_spec(old(self)@, msg@, part@, work@, time).0);
                }
            },
            None => {
                proof {
                    lemma_assoc_map_dom(p0, part_key@);
                }
                let mut jobs: Vec<(String, u64)> = Vec::new();
                let ghost j0 = jobs@;
                jobs.push((job_key, time));
                let acc = PartAcc { jobs, total: time };
                proof {
                    lemma_assoc_map_push(j0, acc.jobs@);
                    assert(assoc_map(j0) =~= Map::<Seq<char>, u64>::empty());
                    assert(acc@ =~= part_record(
                        PartView { jobs: Map::empty(), total: 0u64 },
                        msg@,
                        time,
                    ));
                }
                self.parts.push((part_key, acc));
                proof {
                    lemma_assoc_map_push(p0, self.parts@);
                    assert(self@ =~= end_job_spec(old(self)@, msg@, part@, work@, time).0);
                }
            },
        }
        Ok(())
    }

    /// The accumulated total for `part`; a part never recorded reads as
    /// zero, not as an error.
    pub fn part_time(&self, part: &str) -> (t: u64)
        requires
            self.wf(),
        ensures
            t == part_total(self@, part@),
            !self@.parts.contains_key(part@) ==> t == 0,
    {
        let key: String = part.to_owned();
        proof {
            lemma_assoc_map_dom(self.parts@, key@);
        }
        match assoc_find(&self.parts, &key) {
            Some(i) => {
                proof {
                    lemma_assoc_map_index(self.parts@, i as int);
                }
                self.parts[i].1.total
            },
            None => 0,
        }
    }

    /// The accumulated duration of `msg` within `part`; an unknown job or
    /// part reads as zero, not as an error.
    pub fn job_time(&self, msg: &str, part: &str) -> (t: u64)
        requires
            self.wf(),
        ensures
            t == job_total(self@, msg@, part@),
            !self@.parts.contains_key(part@) ==> t == 0,
            self@.parts.contains_key(part@) && !self@.parts[part@].jobs.contains_key(msg@) ==> t
                == 0,
    {
        let part_key: String = part.to_owned();
        proof {
            lemma_assoc_map_dom(self.parts@, part_key@);
        }
        match assoc_find(&self.parts, &part_key) {
            Some(i) => {
                proof {
                    lemma_assoc_map_index(self.parts@, i as int);
                }
                let job_key: String = msg.to_owned();
                let pa = &self.parts[i].1;
                proof {
                    lemma_assoc_map_dom(pa.jobs@, job_key@);
                }
                match assoc_find(&pa.jobs, &job_key) {
                    Some(j) => {
                        proof {
                            lemma_assoc_map_index(pa.jobs@, j as int);
                        }
                        pa.jobs[j].1
                    },
                    None => 0,
                }
            },
            None => 0,
        }
    }

    /// The elapsed time of session `work` when the clock reads `now`: its
    /// recorded span once ended, the time from start to `now` for the
    /// running default session, and an error for any other running or
    /// unknown session.
    pub fn work_total_time_at(&self, work: &str, now: u64) -> (r: Result<u64, StatError>)
        requires
            self.wf(),
        ensures
            r == work_elapsed_spec(self@, work@, now),
    {
        let key: String = work.to_owned();
        proof {
            lemma_assoc_map_dom(self.starts@, key@);
            lemma_assoc_map_dom(self.ends@, key@);
        }
        let start: u64 = match assoc_find(&self.starts, &key) {
            Some(i) => {
                proof {
                    lemma_assoc_map_index(self.starts@, i as int);
                }
                self.starts[i].1
            },
            None => {
                return Err(StatError::NotStarted);
            },
        };
        match assoc_find(&self.ends, &key) {
            Some(i) => {
                proof {
                    lemma_assoc_map_index(self.ends@, i as int);
                }
                let end = self.ends[i].1;
                Ok(if end >= start {
                    end - start
                } else {
                    0
                })
            },
            None => {
                if str_eq(work, default_work()) {
                    Ok(
                        if now >= start {
                            now - start
                        } else {
                            0
                        },
                    )
                } else {
                    Err(StatError::NotEnded)
                }
            },
        }
    }

    /// The elapsed time of session `work` at the current clock reading. The
    /// branches that do not consult the clock are pinned exactly; a query on
    /// the running default session succeeds with `work_elapsed_spec` of
    /// whatever the clock returned.
    pub fn work_total_time(&self, work: &str) -> (r: Result<u64, StatError>)
        requires
            self.wf(),
        ensures
            (exists|t: u64| r == #[trigger] work_elapsed_spec(self@, work@, t)),
            !self@.starts.contains_key(work@) ==> r == Err::<u64, StatError>(StatError::NotStarted),
            self@.starts.contains_key(work@) && self@.ends.contains_key(work@) ==> r == Ok::<
                u64,
                StatError,
            >(sat_sub(self@.ends[work@], self@.starts[work@])),
            self@.starts.contains_key(work@) && !self@.ends.contains_key(work@) && work@
                != default_work_name() ==> r == Err::<u64, StatError>(StatError::NotEnded),
            self@.starts.contains_key(work@) && !self@.ends.contains_key(work@) && work@
                == default_work_name() ==> r is Ok,
    {
        let now = now_nanos();
        let r = self.work_total_time_at(work, now);
        proof {
            assert(r == work_elapsed_spec(self@, work@, now));
        }
        r
    }
}

/// Whether two strings hold the same characters.
pub fn str_eq(a: &str, b: &str) -> (r: bool)
    ensures
        r == (a@ == b@),
{
    let a_own: String = a.to_owned();
    let b_own: String = b.to_owned();
    a_own == b_own
}

} // verus!
