//! Job kinds and states of persisted background work, with their stored
//! names.
use crate::ids::{is_v4_uuid, new_v4_uuid};
use crate::text::str_is;
use vstd::prelude::*;

verus! {

/// Identifier of a background job (the value of its UUID).
#[derive(Debug, Clone, Copy, PartialEq, Eq, Hash, Structural)]
pub struct JobId(pub u128);

impl JobId {
    /// A fresh random identifier.
    pub fn new() -> (r: JobId)
        ensures
            is_v4_uuid(r.0),
    {
        JobId(new_v4_uuid())
    }
}

/// What a background job does.
#[derive(Debug, Clone, Copy, PartialEq, Eq, Hash, Structural)]
pub enum JobKind {
    AnalyzeAsset,
    GenerateProxy,
    ExportTimeline,
}

/// Stored name of a job kind.
pub open spec fn job_kind_name(k: JobKind) -> Seq<char> {
    match k {
        JobKind::AnalyzeAsset => "analyze_asset"@,
        JobKind::GenerateProxy => "generate_proxy"@,
        JobKind::ExportTimeline => "export_timeline"@,
    }
}

/// The job kind with the given stored name, if any.
pub open spec fn job_kind_named(s: Seq<char>) -> Option<JobKind> {
    if s == "analyze_asset"@ {
        Some(JobKind::AnalyzeAsset)
    } else if s == "generate_proxy"@ {
        Some(JobKind::GenerateProxy)
    } else if s == "export_timeline"@ {
        Some(JobKind::ExportTimeline)
    } else {
        None
    }
}

impl JobKind {
    pub fn as_str(&self) -> (r: &'static str)
        ensures
            r@ == job_kind_name(*self),
    {
        match self {
            JobKind::AnalyzeAsset => "analyze_asset",
            JobKind::GenerateProxy => "generate_proxy",
            JobKind::ExportTimeline => "export_timeline",
        }
    }

    pub fn from_str(s: &str) -> (r: Option<JobKind>)
        ensures
            r == job_kind_named(s@),
    {
        if str_is(s, "analyze_asset") {
            Some(JobKind::AnalyzeAsset)
        } else if str_is(s, "generate_proxy") {
            Some(JobKind::GenerateProxy)
        } else if str_is(s, "export_timeline") {
            Some(JobKind::ExportTimeline)
        } else {
            None
        }
    }
}

/// Lifecycle state of a background job.
#[derive(Debug, Clone, Copy, PartialEq, Eq, Hash, Structural)]
pub enum JobStatus {
    Queued,
    Running,
    Succeeded,
    Failed,
    Canceled,
}

/// Stored name of a job state.
pub open spec fn job_status_name(s: JobStatus) -> Seq<char> {
    match s {
        JobStatus::Queued => "queued"@,
        JobStatus::Running => "running"@,
        JobStatus::Succeeded => "succeeded"@,
        JobStatus::Failed => "failed"@,
        JobStatus::Canceled => "canceled"@,
    }
}

/// The job state with the given stored name, if any.
pub open spec fn job_status_named(s: Seq<char>) -> Option<JobStatus> {
    if s == "queued"@ {
        Some(JobStatus::Queued)
    } else if s == "running"@ {
        Some(JobStatus::Running)
    } else if s == "succeeded"@ {
        Some(JobStatus::Succeeded)
    } else if s == "failed"@ {
        Some(JobStatus::Failed)
    } else if s == "canceled"@ {
        Some(JobStatus::Canceled)
    } else {
        None
    }
}

impl JobStatus {
    pub fn as_str(&self) -> (r: &'static str)
        ensures
            r@ == job_status_name(*self),
    {
        match self {
            JobStatus::Queued => "queued",
            JobStatus::Running => "running",
            JobStatus::Succeeded => "succeeded",
            JobStatus::Failed => "failed",
            JobStatus::Canceled => "canceled",
        }
    }

    pub fn from_str(s: &str) -> (r: Option<JobStatus>)
        ensures
            r == job_status_named(s@),
    {
        if str_is(s, "queued") {
            Some(JobStatus::Queued)
        } else if str_is(s, "running") {
            Some(JobStatus::Running)
        } else if str_is(s, "succeeded") {
            Some(JobStatus::Succeeded)
        } else if str_is(s, "failed") {
            Some(JobStatus::Failed)
        } else if str_is(s, "canceled") {
            Some(JobStatus::Canceled)
        } else {
            None
        }
    }
}

/// Reading back the stored name of a job kind gives the same kind.
pub proof fn law_job_kind_name_roundtrip(k: JobKind)
    ensures
        job_kind_named(job_kind_name(k)) == Some(k),
{
    reveal_strlit("analyze_asset");
    reveal_strlit("generate_proxy");
    reveal_strlit("export_timeline");
    assert("analyze_asset"@.len() == 13);
    assert("generate_proxy"@.len() == 14);
    assert("export_timeline"@.len() == 15);
}

/// Reading back the stored name of a job state gives the same state.
pub proof fn law_job_status_name_roundtrip(s: JobStatus)
    ensures
        job_status_named(job_status_name(s)) == Some(s),
{
    reveal_strlit("queued");
    reveal_strlit("running");
    reveal_strlit("succeeded");
    reveal_strlit("failed");
    reveal_strlit("canceled");
    assert("queued"@.len() == 6 && "queued"@[0] == 'q');
    assert("running"@.len() == 7);
    assert("succeeded"@.len() == 9);
    assert("failed"@.len() == 6 && "failed"@[0] == 'f');
    assert("canceled"@.len() == 8);
}

/// A name that parses as a job state is that state's stored name.
pub proof fn law_job_status_parse_inverts(s: Seq<char>)
    ensures
        job_status_named(s) matches Some(st) ==> job_status_name(st) == s,
{
}

/// A name that parses as a job kind is that kind's stored name.
pub proof fn law_job_kind_parse_inverts(s: Seq<char>)
    ensures
        job_kind_named(s) matches Some(k) ==> job_kind_name(k) == s,
{
}

} // verus!
