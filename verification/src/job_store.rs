//! The persisted background-job queue: job records, their lifecycle
//! transitions, the pending list (queued and running jobs, oldest first),
//! crash recovery, and the names of the files that hold them.
//!
//! `JobStore` keeps one record per job identifier, as the store directory
//! keeps one file per job; every operation is an upsert of whole records.
use crate::ids::{uuid_hyphenated, uuid_text};
use crate::text::{chars_of, ends_with_str, has_prefix, has_suffix, push_str, starts_with_str};
use vstd::prelude::*;

verus! {

/// Lifecycle state of a stored job.
#[derive(Debug, Clone, Copy, PartialEq, Eq, Structural)]
pub enum JobStatus {
    Queued,
    Running,
    Succeeded,
    Failed,
    Canceled,
}

/// Stored name of a job state.
pub open spec fn status_name(s: JobStatus) -> Seq<char> {
    match s {
        JobStatus::Queued => "queued"@,
        JobStatus::Running => "running"@,
        JobStatus::Succeeded => "succeeded"@,
        JobStatus::Failed => "failed"@,
        JobStatus::Canceled => "canceled"@,
    }
}

impl JobStatus {
    pub fn as_str(&self) -> (r: &'static str)
        ensures
            r@ == status_name(*self),
    {
        match self {
            JobStatus::Queued => "queued",
            JobStatus::Running => "running",
            JobStatus::Succeeded => "succeeded",
            JobStatus::Failed => "failed",
            JobStatus::Canceled => "canceled",
        }
    }
}

/// The job still needs work.
pub open spec fn is_pending(s: JobStatus) -> bool {
    s == JobStatus::Queued || s == JobStatus::Running
}

/// Errors of the job store.
#[derive(Debug, Clone, PartialEq)]
pub enum StoreError {
    Io(String),
    NotFound { entity_type: &'static str, id: u128 },
    Constraint(String),
}

/// One persisted job. Times are Unix milliseconds; `id` is the job's UUID.
#[derive(Debug)]
pub struct JobRecord {
    pub id: u128,
    pub kind: String,
    pub status: JobStatus,
    pub progress: Option<i32>,
    pub payload_json: String,
    pub result_json: Option<String>,
    pub error: Option<String>,
    pub created_at: i64,
    pub updated_at: i64,
}

/// A job record with its texts as character sequences.
pub struct JobRecordView {
    pub id: u128,
    pub kind: Seq<char>,
    pub status: JobStatus,
    pub progress: Option<i32>,
    pub payload_json: Seq<char>,
    pub result_json: Option<Seq<char>>,
    pub error: Option<Seq<char>>,
    pub created_at: i64,
    pub updated_at: i64,
}

pub open spec fn opt_text(s: Option<String>) -> Option<Seq<char>> {
    match s {
        Some(t) => Some(t@),
        None => None,
    }
}

impl View for JobRecord {
    type V = JobRecordView;

    open spec fn view(&self) -> JobRecordView {
        JobRecordView {
            id: self.id,
            kind: self.kind@,
            status: self.status,
            progress: self.progress,
            payload_json: self.payload_json@,
            result_json: opt_text(self.result_json),
            error: opt_text(self.error),
            created_at: self.created_at,
            updated_at: self.updated_at,
        }
    }
}

/// A freshly created job: queued, no progress, result or error.
pub open spec fn queued_job(id: u128, kind: Seq<char>, payload: Seq<char>, now: i64) -> JobRecordView {
    JobRecordView {
        id,
        kind,
        status: JobStatus::Queued,
        progress: None,
        payload_json: payload,
        result_json: None,
        error: None,
        created_at: now,
        updated_at: now,
    }
}

/// Started (or restarted): running, with progress, result and error cleared.
pub open spec fn running_job(r: JobRecordView, now: i64) -> JobRecordView {
    JobRecordView {
        status: JobStatus::Running,
        progress: None,
        result_json: None,
        error: None,
        updated_at: now,
        ..r
    }
}

/// Running with the given percentage.
pub open spec fn progressed_job(r: JobRecordView, progress: u8, now: i64) -> JobRecordView {
    JobRecordView {
        status: JobStatus::Running,
        progress: Some(progress as i32),
        updated_at: now,
        ..r
    }
}

/// Finished: progress 100, the given result, no error.
pub open spec fn succeeded_job(r: JobRecordView, result: Option<Seq<char>>, now: i64) -> JobRecordView {
    JobRecordView {
        status: JobStatus::Succeeded,
        progress: Some(100),
        result_json: result,
        error: None,
        updated_at: now,
        ..r
    }
}

/// Failed with the given message; progress and result are kept.
pub open spec fn failed_job(r: JobRecordView, error: Seq<char>, now: i64) -> JobRecordView {
    JobRecordView { status: JobStatus::Failed, error: Some(error), updated_at: now, ..r }
}

/// Canceled; everything else is kept.
pub open spec fn canceled_job(r: JobRecordView, now: i64) -> JobRecordView {
    JobRecordView { status: JobStatus::Canceled, updated_at: now, ..r }
}

/// Requeued after a crash.
pub open spec fn requeued_job(r: JobRecordView, now: i64) -> JobRecordView {
    JobRecordView { status: JobStatus::Queued, updated_at: now, ..r }
}

fn copy_opt_string(s: &Option<String>) -> (r: Option<String>)
    ensures
        opt_text(r) == opt_text(*s),
{
    match s {
        Some(t) => Some(t.clone()),
        None => None,
    }
}

impl JobRecord {
    /// A new queued job.
    pub fn new_queued(id: u128, kind: &str, payload_json: &str, now: i64) -> (r: JobRecord)
        ensures
            r@ == queued_job(id, kind@, payload_json@, now),
    {
        JobRecord {
            id,
            kind: kind.to_owned(),
            status: JobStatus::Queued,
            progress: None,
            payload_json: payload_json.to_owned(),
            result_json: None,
            error: None,
            created_at: now,
            updated_at: now,
        }
    }

    /// A copy of the record.
    pub fn copy(&self) -> (r: JobRecord)
        ensures
            r@ == self@,
    {
        JobRecord {
            id: self.id,
            kind: self.kind.clone(),
            status: self.status,
            progress: self.progress,
            payload_json: self.payload_json.clone(),
            result_json: copy_opt_string(&self.result_json),
            error: copy_opt_string(&self.error),
            created_at: self.created_at,
            updated_at: self.updated_at,
        }
    }

    pub fn mark_running(&mut self, now: i64)
        ensures
            final(self)@ == running_job(old(self)@, now),
    {
        self.status = JobStatus::Running;
        self.progress = None;
        self.result_json = None;
        self.error = None;
        self.updated_at = now;
    }

    pub fn mark_progress(&mut self, progress: u8, now: i64)
        ensures
            final(self)@ == progressed_job(old(self)@, progress, now),
    {
        self.status = JobStatus::Running;
        self.progress = Some(progress as i32);
        self.updated_at = now;
    }

    pub fn mark_succeeded(&mut self, result_json: Option<String>, now: i64)
        ensures
            final(self)@ == succeeded_job(old(self)@, opt_text(result_json), now),
    {
        self.status = JobStatus::Succeeded;
        self.progress = Some(100);
        self.result_json = result_json;
        self.error = None;
        self.updated_at = now;
    }

    pub fn mark_failed(&mut self, error: String, now: i64)
        ensures
            final(self)@ == failed_job(old(self)@, error@, now),
    {
        self.status = JobStatus::Failed;
        self.error = Some(error);
        self.updated_at = now;
    }

    pub fn mark_canceled(&mut self, now: i64)
        ensures
            final(self)@ == canceled_job(old(self)@, now),
    {
        self.status = JobStatus::Canceled;
        self.updated_at = now;
    }
}

/// The records keyed by identifier (a later record with the same
/// identifier wins).
pub open spec fn record_map(s: Seq<JobRecordView>) -> Map<u128, JobRecordView>
    decreases s.len(),
{
    if s.len() == 0 {
        Map::empty()
    } else {
        record_map(s.drop_last()).insert(s.last().id, s.last())
    }
}

/// No two records share an identifier.
pub open spec fn unique_ids(s: Seq<JobRecordView>) -> bool {
    forall|i: int, j: int| 0 <= i < s.len() && 0 <= j < s.len() && i != j ==> s[i].id != s[j].id
}

proof fn lemma_unique_drop_last(s: Seq<JobRecordView>)
    requires
        unique_ids(s),
        s.len() > 0,
    ensures
        unique_ids(s.drop_last()),
        forall|i: int| 0 <= i < s.len() - 1 ==> s[i].id != s.last().id,
{
    assert forall|i: int| 0 <= i < s.len() - 1 implies s[i].id != s.last().id by {
        assert(s[i].id != s[s.len() - 1].id);
    }
}

proof fn lemma_map_contains(s: Seq<JobRecordView>, id: u128)
    ensures
        record_map(s).contains_key(id) <==> exists|i: int| 0 <= i < s.len() && s[i].id == id,
        record_map(s).dom().finite(),
    decreases s.len(),
{
    if s.len() > 0 {
        lemma_map_contains(s.drop_last(), id);
        if exists|i: int| 0 <= i < s.len() && s[i].id == id {
            let i = choose|i: int| 0 <= i < s.len() && s[i].id == id;
            if i < s.len() - 1 {
                assert(s.drop_last()[i].id == id);
            }
        }
        if exists|i: int| 0 <= i < s.len() - 1 && s.drop_last()[i].id == id {
            let i = choose|i: int| 0 <= i < s.len() - 1 && s.drop_last()[i].id == id;
            assert(s[i].id == id);
        }
    }
}

proof fn lemma_map_index(s: Seq<JobRecordView>, i: int)
    requires
        unique_ids(s),
        0 <= i < s.len(),
    ensures
        record_map(s).contains_key(s[i].id),
        record_map(s)[s[i].id] == s[i],
    decreases s.len(),
{
    if i < s.len() - 1 {
        lemma_unique_drop_last(s);
        lemma_map_index(s.drop_last(), i);
        assert(s.drop_last()[i] == s[i]);
    }
}

proof fn lemma_map_update(s: Seq<JobRecordView>, i: int, v: JobRecordView)
    requires
        unique_ids(s),
        0 <= i < s.len(),
        v.id == s[i].id,
    ensures
        unique_ids(s.update(i, v)),
        record_map(s.update(i, v)) == record_map(s).insert(v.id, v),
    decreases s.len(),
{
    let t = s.update(i, v);
    assert forall|a: int, b: int| 0 <= a < t.len() && 0 <= b < t.len() && a != b implies t[a].id
        != t[b].id by {
        assert(t[a].id == s[a].id && t[b].id == s[b].id);
    }
    if i == s.len() - 1 {
        assert(t.drop_last() =~= s.drop_last());
        assert(record_map(t) =~= record_map(s).insert(v.id, v));
    } else {
        lemma_unique_drop_last(s);
        assert(t.drop_last() =~= s.drop_last().update(i, v));
        lemma_map_update(s.drop_last(), i, v);
        assert(s.last().id != v.id);
        assert(t.last() == s.last());
        assert(record_map(t) =~= record_map(s).insert(v.id, v));
    }
}

proof fn lemma_map_push(s: Seq<JobRecordView>, v: JobRecordView)
    requires
        unique_ids(s),
        !record_map(s).contains_key(v.id),
    ensures
        unique_ids(s.push(v)),
        record_map(s.push(v)) == record_map(s).insert(v.id, v),
{
    let t = s.push(v);
    assert(t.drop_last() =~= s);
    assert forall|a: int, b: int| 0 <= a < t.len() && 0 <= b < t.len() && a != b implies t[a].id
        != t[b].id by {
        if a == s.len() {
            lemma_map_contains(s, v.id);
            assert(s[b].id != v.id);
        } else if b == s.len() {
            lemma_map_contains(s, v.id);
            assert(s[a].id != v.id);
        } else {
            assert(t[a] == s[a] && t[b] == s[b]);
        }
    }
}

/// The store's records are exactly the keys and values of its map.
proof fn lemma_map_values(s: Seq<JobRecordView>, id: u128)
    requires
        unique_ids(s),
        record_map(s).contains_key(id),
    ensures
        exists|i: int| 0 <= i < s.len() && s[i].id == id && s[i] == record_map(s)[id],
{
    lemma_map_contains(s, id);
    let i = choose|i: int| 0 <= i < s.len() && s[i].id == id;
    lemma_map_index(s, i);
}


/// Records ordered by creation time, oldest first.
pub open spec fn sorted_by_created(s: Seq<JobRecordView>) -> bool {
    forall|a: int, b: int| 0 <= a <= b < s.len() ==> s[a].created_at <= s[b].created_at
}

/// Inserts `rec` into `out` after every record created no later than it.
fn insert_by_created(out: &mut Vec<JobRecord>, rec: JobRecord) -> (p: usize)
    requires
        sorted_by_created(old(out)@.map_values(|r: JobRecord| r@)),
    ensures
        p <= old(out)@.len(),
        final(out)@ == old(out)@.insert(p as int, rec),
        sorted_by_created(final(out)@.map_values(|r: JobRecord| r@)),
{
    let ghost before = out@.map_values(|r: JobRecord| r@);
    let key = rec.created_at;
    let mut p: usize = 0;
    while p < out.len() && out[p].created_at <= key
        invariant
            p <= out.len(),
            before == out@.map_values(|r: JobRecord| r@),
            forall|a: int| 0 <= a < p ==> before[a].created_at <= key,
        decreases out.len() - p,
    {
        p = p + 1;
    }
    let ghost v = rec@;
    out.insert(p, rec);
    proof {
        let after = out@.map_values(|r: JobRecord| r@);
        assert(after =~= before.insert(p as int, v));
        assert forall|a: int, b: int| 0 <= a <= b < after.len() implies after[a].created_at
            <= after[b].created_at by {
            if a < p && b < p {
            } else if a < p && b == p {
            } else if a < p && b > p {
                assert(after[b] == before[b - 1]);
                assert(before[a].created_at <= before[b - 1].created_at);
            } else if a == p && b == p {
            } else if a == p {
                assert(after[b] == before[b - 1]);
                assert(before[p as int].created_at > key);
                assert(before[p as int].created_at <= before[b - 1].created_at);
            } else {
                assert(after[a] == before[a - 1] && after[b] == before[b - 1]);
            }
        }
    }
    p
}

/// The running records of `s`, requeued at `now`, in order.
pub open spec fn requeue_running(s: Seq<JobRecordView>, now: i64) -> Seq<JobRecordView>
    decreases s.len(),
{
    if s.len() == 0 {
        Seq::empty()
    } else {
        let rest = requeue_running(s.drop_last(), now);
        if s.last().status == JobStatus::Running {
            rest.push(requeued_job(s.last(), now))
        } else {
            rest
        }
    }
}

/// The rewrites that crash recovery makes: every running record becomes
/// queued again at `now`; the others are not rewritten.
pub fn recover_plan(pending: &Vec<JobRecord>, now: i64) -> (r: Vec<JobRecord>)
    ensures
        r@.map_values(|x: JobRecord| x@) == requeue_running(
            pending@.map_values(|x: JobRecord| x@),
            now,
        ),
{
    let ghost src = pending@.map_values(|x: JobRecord| x@);
    let mut out: Vec<JobRecord> = Vec::new();
    let mut i: usize = 0;
    while i < pending.len()
        invariant
            i <= pending.len(),
            src == pending@.map_values(|x: JobRecord| x@),
            out@.map_values(|x: JobRecord| x@) == requeue_running(src.subrange(0, i as int), now),
        decreases pending.len() - i,
    {
        assert(src.subrange(0, i + 1).drop_last() =~= src.subrange(0, i as int));
        if pending[i].status == JobStatus::Running {
            let mut rec = pending[i].copy();
            rec.status = JobStatus::Queued;
            rec.updated_at = now;
            out.push(rec);
        }
        i = i + 1;
        assert(out@.map_values(|x: JobRecord| x@) =~= requeue_running(
            src.subrange(0, i as int),
            now,
        ));
    }
    assert(src.subrange(0, pending.len() as int) =~= src);
    out
}

/// The store after crash recovery at `now`: running jobs are queued again,
/// all others are unchanged.
pub open spec fn recovered_jobs(m: Map<u128, JobRecordView>, now: i64) -> Map<u128, JobRecordView> {
    Map::new(
        |id: u128| m.contains_key(id),
        |id: u128|
            if m[id].status == JobStatus::Running {
                requeued_job(m[id], now)
            } else {
                m[id]
            },
    )
}

pub open spec fn recover_one(r: JobRecordView, now: i64) -> JobRecordView {
    if r.status == JobStatus::Running {
        requeued_job(r, now)
    } else {
        r
    }
}

pub open spec fn count_running(s: Seq<JobRecordView>) -> nat
    decreases s.len(),
{
    if s.len() == 0 {
        0
    } else {
        count_running(s.drop_last()) + if s.last().status == JobStatus::Running {
            1nat
        } else {
            0nat
        }
    }
}

proof fn lemma_map_recover(s: Seq<JobRecordView>, now: i64)
    requires
        unique_ids(s),
    ensures
        unique_ids(s.map_values(|r: JobRecordView| recover_one(r, now))),
        record_map(s.map_values(|r: JobRecordView| recover_one(r, now))) == recovered_jobs(
            record_map(s),
            now,
        ),
    decreases s.len(),
{
    let t = s.map_values(|r: JobRecordView| recover_one(r, now));
    assert forall|a: int, b: int| 0 <= a < t.len() && 0 <= b < t.len() && a != b implies t[a].id
        != t[b].id by {
        assert(t[a].id == s[a].id && t[b].id == s[b].id);
    }
    if s.len() == 0 {
        assert(record_map(t) =~= recovered_jobs(record_map(s), now));
    } else {
        lemma_unique_drop_last(s);
        lemma_map_recover(s.drop_last(), now);
        assert(t.drop_last() =~= s.drop_last().map_values(|r: JobRecordView| recover_one(r, now)));
        assert(record_map(t) =~= recovered_jobs(record_map(s), now));
    }
}

proof fn lemma_count_running(s: Seq<JobRecordView>)
    requires
        unique_ids(s),
    ensures
        ids_in_state(record_map(s), JobStatus::Running).finite(),
        count_running(s) == ids_in_state(record_map(s), JobStatus::Running).len(),
    decreases s.len(),
{
    let m = record_map(s);
    lemma_map_contains(s, 0);
    if s.len() == 0 {
        assert(ids_in_state(m, JobStatus::Running) =~= Set::<u128>::empty());
    } else {
        let d = s.drop_last();
        lemma_unique_drop_last(s);
        lemma_count_running(d);
        let old_set = ids_in_state(record_map(d), JobStatus::Running);
        let last = s.last();
        lemma_map_contains(d, last.id);
        assert(!record_map(d).contains_key(last.id)) by {
            if record_map(d).contains_key(last.id) {
                let i = choose|i: int| 0 <= i < d.len() && d[i].id == last.id;
                assert(s[i].id == last.id);
            }
        }
        assert(!old_set.contains(last.id));
        if last.status == JobStatus::Running {
            assert(ids_in_state(m, JobStatus::Running) =~= old_set.insert(last.id));
        } else {
            assert(ids_in_state(m, JobStatus::Running) =~= old_set);
        }
    }
}

/// After recovery no job is running, so recovering again changes nothing.
pub proof fn law_recovery_is_idempotent(m: Map<u128, JobRecordView>, now: i64, later: i64)
    ensures
        ids_in_state(recovered_jobs(m, now), JobStatus::Running) == Set::<u128>::empty(),
        recovered_jobs(recovered_jobs(m, now), later) == recovered_jobs(m, now),
{
    assert(ids_in_state(recovered_jobs(m, now), JobStatus::Running) =~= Set::<u128>::empty());
    assert(recovered_jobs(recovered_jobs(m, now), later) =~= recovered_jobs(m, now));
}

/// A job that succeeded, failed or was canceled is no longer pending, and
/// a started or progressing one is.
pub proof fn law_lifecycle_pending(r: JobRecordView, result: Option<Seq<char>>, error: Seq<char>, p: u8, now: i64)
    ensures
        !is_pending(succeeded_job(r, result, now).status),
        !is_pending(failed_job(r, error, now).status),
        !is_pending(canceled_job(r, now).status),
        is_pending(running_job(r, now).status),
        is_pending(progressed_job(r, p, now).status),
        is_pending(queued_job(r.id, r.kind, r.payload_json, now).status),
{
}

/// What each step of a job's life writes. Starting (or restarting) clears
/// the progress, result and error of any earlier run; progress sets the
/// percentage; success sets progress 100, the result and no error; failure
/// sets the error and keeps progress and result; cancelling changes only
/// the state. Every step keeps the identifier, kind, payload and creation
/// time and stamps `now`.
pub proof fn law_lifecycle_fields(r: JobRecordView, result: Option<Seq<char>>, error: Seq<char>, p: u8, now: i64)
    ensures
        ({
            let s = running_job(r, now);
            s.status == JobStatus::Running && s.progress is None && s.result_json is None
                && s.error is None
        }),
        ({
            let s = progressed_job(r, p, now);
            s.status == JobStatus::Running && s.progress == Some(p as i32) && s.result_json
                == r.result_json && s.error == r.error
        }),
        ({
            let s = succeeded_job(r, result, now);
            s.status == JobStatus::Succeeded && s.progress == Some(100i32) && s.result_json
                == result && s.error is None
        }),
        ({
            let s = failed_job(r, error, now);
            s.status == JobStatus::Failed && s.error == Some(error) && s.progress == r.progress
                && s.result_json == r.result_json
        }),
        ({
            let s = canceled_job(r, now);
            s.status == JobStatus::Canceled && s.progress == r.progress && s.result_json
                == r.result_json && s.error == r.error
        }),
        forall|s: JobRecordView|
            s == running_job(r, now) || s == progressed_job(r, p, now) || s == succeeded_job(
                r,
                result,
                now,
            ) || s == failed_job(r, error, now) || s == canceled_job(r, now) ==> s.id == r.id
                && s.kind == r.kind && s.payload_json == r.payload_json && s.created_at
                == r.created_at && s.updated_at == now,
{
}

/// A store file name that holds a job: `*.json`, but not a temporary
/// (`temp_*`) or quarantined (`corrupted_*`) sibling.
pub open spec fn is_job_file_name(name: Seq<char>) -> bool {
    has_suffix(name, ".json"@) && !has_prefix(name, "temp_"@) && !has_prefix(name, "corrupted_"@)
}

/// The file name is that of a stored job (see `is_job_file_name`).
pub fn is_job_file(name: &str) -> (r: bool)
    ensures
        r == is_job_file_name(name@),
{
    let chars = chars_of(name);
    ends_with_str(&chars, ".json") && !starts_with_str(&chars, "temp_") && !starts_with_str(
        &chars,
        "corrupted_",
    )
}

/// Name of the file holding job `id`: its hyphenated UUID and `.json`.
pub fn job_file_name(id: u128) -> (s: String)
    ensures
        s@ == uuid_text(id) + ".json"@,
{
    let mut s = uuid_hyphenated(id);
    push_str(&mut s, ".json");
    s
}

/// Every job's own file is recognised as a job file.
pub proof fn law_job_file_recognised(id: u128)
    ensures
        is_job_file_name(uuid_text(id) + ".json"@),
{
    reveal_strlit(".json");
    reveal_strlit("temp_");
    reveal_strlit("corrupted_");
    let n = uuid_text(id) + ".json"@;
    assert(n.subrange(n.len() - 5, n.len() as int) =~= ".json"@);
    let d0 = crate::ids::uuid_nibble(id, 0);
    let d1 = crate::ids::uuid_nibble(id, 1);
    assert(d0 < 16 && d1 < 16) by (bit_vector)
        requires
            d0 == (id >> 124u128) & 0xfu128,
            d1 == (id >> 120u128) & 0xfu128,
    ;
    assert(n[0] == crate::ids::hex_char(d0));
    assert(n[1] == crate::ids::hex_char(d1));
    assert(n[0] != 't');
    assert(n[1] != 'o');
    assert("temp_"@[0] == 't');
    assert("corrupted_"@[1] == 'o');
    assert(n.subrange(0, 5)[0] != "temp_"@[0]);
    assert(n.subrange(0, 10)[1] != "corrupted_"@[1]);
}

/// Identifiers of the records in state `st`.
pub open spec fn ids_in_state(m: Map<u128, JobRecordView>, st: JobStatus) -> Set<u128> {
    m.dom().filter(|id: u128| m[id].status == st)
}

/// Unix milliseconds now, from the system clock (`web_time::SystemTime::now`
/// since `web_time::UNIX_EPOCH`, 0 before the epoch). Nothing is promised of
/// the value: it is the time.
#[verifier::external_body]
fn now_millis() -> i64 {
    web_time::SystemTime::now()
        .duration_since(web_time::UNIX_EPOCH)
        .map(|d| d.as_millis() as i64)
        .unwrap_or(0)
}


/// The job queue: one record per job identifier.
pub struct JobStore {
    records: Vec<JobRecord>,
}

impl JobStore {
    pub closed spec fn record_views(&self) -> Seq<JobRecordView> {
        self.records@.map_values(|r: JobRecord| r@)
    }

    #[verifier::type_invariant]
    closed spec fn ids_unique(&self) -> bool {
        unique_ids(self.record_views())
    }

    /// The stored jobs keyed by identifier.
    pub closed spec fn jobs(&self) -> Map<u128, JobRecordView> {
        record_map(self.record_views())
    }

    /// An empty store.
    pub fn new() -> (r: JobStore)
        ensures
            r.jobs() == Map::<u128, JobRecordView>::empty(),
    {
        let r = JobStore { records: Vec::new() };
        assert(r.record_views() =~= Seq::<JobRecordView>::empty());
        r
    }

    /// Index of the record with identifier `id`.
    fn position(&self, id: u128) -> (r: Option<usize>)
        ensures
            match r {
                Some(i) => i < self.records.len() && self.record_views()[i as int].id == id
                    && self.jobs().contains_key(id) && self.jobs()[id] == self.record_views()[i as int],
                None => !self.jobs().contains_key(id),
            },
    {
        proof {
            use_type_invariant(self);
        }
        let mut i: usize = 0;
        while i < self.records.len()
            invariant
                i <= self.records.len(),
                unique_ids(self.record_views()),
                forall|j: int| 0 <= j < i ==> self.record_views()[j].id != id,
            decreases self.records.len() - i,
        {
            if self.records[i].id == id {
                proof {
                    lemma_map_index(self.record_views(), i as int);
                }
                return Some(i);
            }
            i = i + 1;
        }
        proof {
            lemma_map_contains(self.record_views(), id);
        }
        None
    }

    /// The stored job with identifier `id`, if any.
    pub fn get(&self, id: u128) -> (r: Option<JobRecord>)
        ensures
            match r {
                Some(rec) => self.jobs().contains_key(id) && rec@ == self.jobs()[id] && rec.id == id,
                None => !self.jobs().contains_key(id),
            },
    {
        match self.position(id) {
            Some(i) => Some(self.records[i].copy()),
            None => None,
        }
    }

    /// Stores `record`, replacing any record with the same identifier.
    pub fn write_record(&mut self, record: JobRecord)
        ensures
            final(self).jobs() == old(self).jobs().insert(record.id, record@),
    {
        proof {
            use_type_invariant(&*self);
        }
        let ghost v = record@;
        let ghost old_views = self.record_views();
        let pos = self.position(record.id);
        let mut recs: Vec<JobRecord> = Vec::new();
        std::mem::swap(&mut recs, &mut self.records);
        match pos {
            Some(i) => {
                recs.set(i, record);
                proof {
                    lemma_map_update(old_views, i as int, v);
                    assert(recs@.map_values(|r: JobRecord| r@) =~= old_views.update(i as int, v));
                }
            },
            None => {
                recs.push(record);
                proof {
                    lemma_map_push(old_views, v);
                    assert(recs@.map_values(|r: JobRecord| r@) =~= old_views.push(v));
                }
            },
        }
        self.records = recs;
    }

    /// Records a new queued job (replacing any job with the same identifier).
    pub fn create_at(&mut self, id: u128, kind: &str, payload_json: &str, now: i64) -> (r: Result<
        (),
        StoreError,
    >)
        ensures
            r is Ok,
            final(self).jobs() == old(self).jobs().insert(id, queued_job(id, kind@, payload_json@, now)),
    {
        self.write_record(JobRecord::new_queued(id, kind, payload_json, now));
        Ok(())
    }


    /// Jobs still needing work (queued or running), oldest first: exactly
    /// the stored pending jobs, each once.
    pub fn list_pending(&self) -> (r: Vec<JobRecord>)
        ensures
            forall|k: int|
                0 <= k < r.len() ==> {
                    &&& self.jobs().contains_key(#[trigger] r@[k].id)
                    &&& self.jobs()[r@[k].id] == r@[k]@
                    &&& is_pending(r@[k].status)
                },
            forall|id: u128|
                self.jobs().contains_key(id) && is_pending(self.jobs()[id].status) ==> exists|k: int|
                    0 <= k < r.len() && #[trigger] r@[k].id == id,
            forall|a: int, b: int| 0 <= a < r.len() && 0 <= b < r.len() && a != b ==> r@[a].id != r@[b].id,
            sorted_by_created(r@.map_values(|x: JobRecord| x@)),
    {
        proof {
            use_type_invariant(self);
        }
        let ghost s = self.record_views();
        let mut out: Vec<JobRecord> = Vec::new();
        let ghost mut pos: Seq<int> = Seq::empty();
        let mut i: usize = 0;
        assert(out@.map_values(|x: JobRecord| x@) =~= Seq::<JobRecordView>::empty());
        while i < self.records.len()
            invariant
                i <= self.records.len(),
                s == self.record_views(),
                unique_ids(s),
                pos.len() == out.len(),
                forall|k: int| 0 <= k < pos.len() ==> 0 <= #[trigger] pos[k] < i && out@[k]@ == s[pos[k]]
                    && is_pending(s[pos[k]].status),
                forall|a: int, b: int| 0 <= a < pos.len() && 0 <= b < pos.len() && a != b ==> pos[a] != pos[b],
                forall|j: int| 0 <= j < i && is_pending(s[j].status) ==> exists|k: int| 0 <= k < pos.len() && #[trigger] pos[k] == j,
                sorted_by_created(out@.map_values(|x: JobRecord| x@)),
            decreases self.records.len() - i,
        {
            let st = self.records[i].status;
            if st == JobStatus::Queued || st == JobStatus::Running {
                let rec = self.records[i].copy();
                let ghost old_pos = pos;
                let ghost old_out = out@;
                let p = insert_by_created(&mut out, rec);
                proof {
                    pos = old_pos.insert(p as int, i as int);
                    assert forall|k: int| 0 <= k < pos.len() implies 0 <= #[trigger] pos[k] <= i && out@[k]@ == s[pos[k]]
                        && is_pending(s[pos[k]].status) by {
                        if k < p {
                            assert(pos[k] == old_pos[k] && out@[k] == old_out[k]);
                        } else if k > p {
                            assert(pos[k] == old_pos[k - 1] && out@[k] == old_out[k - 1]);
                        }
                    }
                    assert forall|j: int| 0 <= j < i + 1 && is_pending(s[j].status) implies exists|k: int| 0 <= k < pos.len() && #[trigger] pos[k] == j by {
                        if j == i {
                            assert(pos[p as int] == j);
                        } else {
                            let k0 = choose|k: int| 0 <= k < old_pos.len() && old_pos[k] == j;
                            if k0 < p {
                                assert(pos[k0] == j);
                            } else {
                                assert(pos[k0 + 1] == j);
                            }
                        }
                    }
                }
            }
            i = i + 1;
        }
        proof {
            assert forall|k: int| 0 <= k < out.len() implies {
                &&& self.jobs().contains_key(#[trigger] out@[k].id)
                &&& self.jobs()[out@[k].id] == out@[k]@
                &&& is_pending(out@[k].status)
            } by {
                lemma_map_index(s, pos[k]);
            }
            assert forall|id: u128| self.jobs().contains_key(id) && is_pending(self.jobs()[id].status) implies exists|k: int|
                0 <= k < out.len() && #[trigger] out@[k].id == id by {
                lemma_map_values(s, id);
                let j = choose|j: int| 0 <= j < s.len() && s[j].id == id && s[j] == self.jobs()[id];
                let k = choose|k: int| 0 <= k < pos.len() && pos[k] == j;
                assert(out@[k].id == id);
            }
            assert forall|a: int, b: int| 0 <= a < out.len() && 0 <= b < out.len() && a != b implies out@[a].id != out@[b].id by {
                assert(out@[a]@ == s[pos[a]] && out@[b]@ == s[pos[b]]);
            }
        }
        out
    }

    /// Crash recovery: every running job is queued again at `now`; returns
    /// how many were running.
    pub fn recover_incomplete_at(&mut self, now: i64) -> (r: u64)
        ensures
            r == ids_in_state(old(self).jobs(), JobStatus::Running).len(),
            final(self).jobs() == recovered_jobs(old(self).jobs(), now),
    {
        proof {
            use_type_invariant(&*self);
        }
        let ghost s = self.record_views();
        let mut recs: Vec<JobRecord> = Vec::new();
        std::mem::swap(&mut recs, &mut self.records);
        let mut count: u64 = 0;
        let mut i: usize = 0;
        while i < recs.len()
            invariant
                i <= recs.len(),
                recs.len() == s.len(),
                unique_ids(s),
                count == count_running(s.subrange(0, i as int)),
                count <= i,
                forall|j: int| 0 <= j < i ==> #[trigger] recs@[j]@ == recover_one(s[j], now),
                forall|j: int| i <= j < recs.len() ==> #[trigger] recs@[j]@ == s[j],
            decreases recs.len() - i,
        {
            assert(s.subrange(0, i + 1).drop_last() =~= s.subrange(0, i as int));
            assert(recs@[i as int]@ == s[i as int]);
            assert(s.subrange(0, i + 1).last() == s[i as int]);
            assert(count_running(s.subrange(0, i + 1)) == count_running(s.subrange(0, i as int)) + if s[i as int].status == JobStatus::Running { 1nat } else { 0nat });
            if recs[i].status == JobStatus::Running {
                let mut rec = recs[i].copy();
                rec.status = JobStatus::Queued;
                rec.updated_at = now;
                recs.set(i, rec);
                count = count + 1;
            }
            i = i + 1;
        }
        proof {
            assert(s.subrange(0, s.len() as int) =~= s);
            lemma_count_running(s);
            lemma_map_recover(s, now);
            assert(recs@.map_values(|r: JobRecord| r@) =~= s.map_values(|r: JobRecordView| recover_one(r, now)));
        }
        self.records = recs;
        count
    }

    /// Marks the job running, clearing progress, result and error.
    /// A job that is not stored is refused with `NotFound` and nothing changes.
    pub fn set_running_at(&mut self, id: u128, now: i64) -> (r: Result<(), StoreError>)
        ensures
            (match r {
                Ok(()) => old(self).jobs().contains_key(id) && final(self).jobs() == old(
                    self,
                ).jobs().insert(id, running_job(old(self).jobs()[id], now)),
                Err(e) => !old(self).jobs().contains_key(id) && final(self).jobs() == old(
                    self,
                ).jobs() && e == (StoreError::NotFound { entity_type: "job", id }),
            }),
    {
        match self.get(id) {
            None => Err(StoreError::NotFound { entity_type: "job", id }),
            Some(mut rec) => {
                rec.mark_running(now);
                self.write_record(rec);
                Ok(())
            },
        }
    }

    /// Records the job's progress (and that it is running).
    /// A job that is not stored is refused with `NotFound` and nothing changes.
    pub fn set_progress_at(&mut self, id: u128, progress: u8, now: i64) -> (r: Result<(), StoreError>)
        ensures
            (match r {
                Ok(()) => old(self).jobs().contains_key(id) && final(self).jobs() == old(
                    self,
                ).jobs().insert(id, progressed_job(old(self).jobs()[id], progress, now)),
                Err(e) => !old(self).jobs().contains_key(id) && final(self).jobs() == old(
                    self,
                ).jobs() && e == (StoreError::NotFound { entity_type: "job", id }),
            }),
    {
        match self.get(id) {
            None => Err(StoreError::NotFound { entity_type: "job", id }),
            Some(mut rec) => {
                rec.mark_progress(progress, now);
                self.write_record(rec);
                Ok(())
            },
        }
    }

    /// Marks the job succeeded with progress 100 and the given result.
    /// A job that is not stored is refused with `NotFound` and nothing changes.
    pub fn set_succeeded_at(&mut self, id: u128, result_json: Option<String>, now: i64) -> (r: Result<(), StoreError>)
        ensures
            (match r {
                Ok(()) => old(self).jobs().contains_key(id) && final(self).jobs() == old(
                    self,
                ).jobs().insert(id, succeeded_job(old(self).jobs()[id], opt_text(result_json), now)),
                Err(e) => !old(self).jobs().contains_key(id) && final(self).jobs() == old(
                    self,
                ).jobs() && e == (StoreError::NotFound { entity_type: "job", id }),
            }),
    {
        match self.get(id) {
            None => Err(StoreError::NotFound { entity_type: "job", id }),
            Some(mut rec) => {
                rec.mark_succeeded(result_json, now);
                self.write_record(rec);
                Ok(())
            },
        }
    }

    /// Marks the job failed with the given message.
    /// A job that is not stored is refused with `NotFound` and nothing changes.
    pub fn set_failed_at(&mut self, id: u128, error: String, now: i64) -> (r: Result<(), StoreError>)
        ensures
            (match r {
                Ok(()) => old(self).jobs().contains_key(id) && final(self).jobs() == old(
                    self,
                ).jobs().insert(id, failed_job(old(self).jobs()[id], error@, now)),
                Err(e) => !old(self).jobs().contains_key(id) && final(self).jobs() == old(
                    self,
                ).jobs() && e == (StoreError::NotFound { entity_type: "job", id }),
            }),
    {
        match self.get(id) {
            None => Err(StoreError::NotFound { entity_type: "job", id }),
            Some(mut rec) => {
                rec.mark_failed(error, now);
                self.write_record(rec);
                Ok(())
            },
        }
    }

    /// Marks the job canceled.
    /// A job that is not stored is refused with `NotFound` and nothing changes.
    pub fn set_canceled_at(&mut self, id: u128, now: i64) -> (r: Result<(), StoreError>)
        ensures
            (match r {
                Ok(()) => old(self).jobs().contains_key(id) && final(self).jobs() == old(
                    self,
                ).jobs().insert(id, canceled_job(old(self).jobs()[id], now)),
                Err(e) => !old(self).jobs().contains_key(id) && final(self).jobs() == old(
                    self,
                ).jobs() && e == (StoreError::NotFound { entity_type: "job", id }),
            }),
    {
        match self.get(id) {
            None => Err(StoreError::NotFound { entity_type: "job", id }),
            Some(mut rec) => {
                rec.mark_canceled(now);
                self.write_record(rec);
                Ok(())
            },
        }
    }

    /// Records a new queued job stamped with the current time (replacing
    /// any job with the same identifier).
    pub fn create(&mut self, id: u128, kind: &str, payload_json: &str) -> (r: Result<(), StoreError>)
        ensures
            r is Ok,
            exists|now: i64|
                #![trigger queued_job(id, kind@, payload_json@, now)]
                final(self).jobs() == old(self).jobs().insert(
                    id,
                    queued_job(id, kind@, payload_json@, now),
                ),
    {
        self.create_at(id, kind, payload_json, now_millis())
    }

    /// Crash recovery at the current time: every running job is queued
    /// again; returns how many were running.
    pub fn recover_incomplete(&mut self) -> (r: u64)
        ensures
            r == ids_in_state(old(self).jobs(), JobStatus::Running).len(),
            exists|now: i64|
                #![trigger recovered_jobs(old(self).jobs(), now)]
                final(self).jobs() == recovered_jobs(old(self).jobs(), now),
    {
        self.recover_incomplete_at(now_millis())
    }

    /// Marks the job running at the current time (see `set_running_at`).
    pub fn set_running(&mut self, id: u128) -> (r: Result<(), StoreError>)
        ensures
            (match r {
                Ok(()) => old(self).jobs().contains_key(id) && exists|now: i64|
                    #![trigger running_job(old(self).jobs()[id], now)]
                    final(self).jobs() == old(self).jobs().insert(
                        id,
                        running_job(old(self).jobs()[id], now),
                    ),
                Err(e) => !old(self).jobs().contains_key(id) && final(self).jobs() == old(
                    self,
                ).jobs() && e == (StoreError::NotFound { entity_type: "job", id }),
            }),
    {
        self.set_running_at(id, now_millis())
    }

    /// Records the job's progress at the current time (see `set_progress_at`).
    pub fn set_progress(&mut self, id: u128, progress: u8) -> (r: Result<(), StoreError>)
        ensures
            (match r {
                Ok(()) => old(self).jobs().contains_key(id) && exists|now: i64|
                    #![trigger progressed_job(old(self).jobs()[id], progress, now)]
                    final(self).jobs() == old(self).jobs().insert(
                        id,
                        progressed_job(old(self).jobs()[id], progress, now),
                    ),
                Err(e) => !old(self).jobs().contains_key(id) && final(self).jobs() == old(
                    self,
                ).jobs() && e == (StoreError::NotFound { entity_type: "job", id }),
            }),
    {
        self.set_progress_at(id, progress, now_millis())
    }

    /// Marks the job succeeded at the current time (see `set_succeeded_at`).
    pub fn set_succeeded(&mut self, id: u128, result_json: Option<String>) -> (r: Result<(), StoreError>)
        ensures
            (match r {
                Ok(()) => old(self).jobs().contains_key(id) && exists|now: i64|
                    #![trigger succeeded_job(old(self).jobs()[id], opt_text(result_json), now)]
                    final(self).jobs() == old(self).jobs().insert(
                        id,
                        succeeded_job(old(self).jobs()[id], opt_text(result_json), now),
                    ),
                Err(e) => !old(self).jobs().contains_key(id) && final(self).jobs() == old(
                    self,
                ).jobs() && e == (StoreError::NotFound { entity_type: "job", id }),
            }),
    {
        self.set_succeeded_at(id, result_json, now_millis())
    }

    /// Marks the job failed at the current time (see `set_failed_at`).
    pub fn set_failed(&mut self, id: u128, error: String) -> (r: Result<(), StoreError>)
        ensures
            (match r {
                Ok(()) => old(self).jobs().contains_key(id) && exists|now: i64|
                    #![trigger failed_job(old(self).jobs()[id], error@, now)]
                    final(self).jobs() == old(self).jobs().insert(
                        id,
                        failed_job(old(self).jobs()[id], error@, now),
                    ),
                Err(e) => !old(self).jobs().contains_key(id) && final(self).jobs() == old(
                    self,
                ).jobs() && e == (StoreError::NotFound { entity_type: "job", id }),
            }),
    {
        self.set_failed_at(id, error, now_millis())
    }

    /// Marks the job canceled at the current time (see `set_canceled_at`).
    pub fn set_canceled(&mut self, id: u128) -> (r: Result<(), StoreError>)
        ensures
            (match r {
                Ok(()) => old(self).jobs().contains_key(id) && exists|now: i64|
                    #![trigger canceled_job(old(self).jobs()[id], now)]
                    final(self).jobs() == old(self).jobs().insert(
                        id,
                        canceled_job(old(self).jobs()[id], now),
                    ),
                Err(e) => !old(self).jobs().contains_key(id) && final(self).jobs() == old(
                    self,
                ).jobs() && e == (StoreError::NotFound { entity_type: "job", id }),
            }),
    {
        self.set_canceled_at(id, now_millis())
    }
}

} // verus!
