//! The export slot of the editor backend: at most one export runs at a
//! time, a request is refused, failed or started, and a running export can
//! be asked to stop at its next checkpoint.
use crate::text::{decimal, join_strings, joined, push_decimal, push_str, texts_of};
use vstd::prelude::*;

verus! {

/// What the backend answers to an export request.
#[derive(Debug, Clone)]
pub enum ExportDecision {
    /// Reported to the editor as an error; nothing is rendered.
    Refuse(String),
    /// Reported as a failed render; nothing is rendered.
    Fail(String),
    /// The export starts, with hardware acceleration when it was asked for
    /// and the machine has it.
    Start { use_hardware_accel: bool },
}

/// The message of an export refused because media files are offline: their
/// count, then the names of the first three.
pub open spec fn offline_message(names: Seq<Seq<char>>) -> Seq<char> {
    let shown = if names.len() <= 3 {
        names
    } else {
        names.take(3)
    };
    decimal(names.len()) + " media file(s) offline ("@ + joined(shown, ", "@)
        + "…). Relink them in the Assets panel, then export again."@
}

/// The message of a refusal while another export runs.
pub open spec fn busy_message() -> Seq<char> {
    "Export already in progress"@
}

/// The message of a refusal when no timeline is open.
pub open spec fn no_timeline_message() -> Seq<char> {
    "No active timeline to render"@
}

/// The state of the export slot.
pub struct ExportSlot {
    running: bool,
    cancel_requested: bool,
}

impl ExportSlot {
    #[verifier::type_invariant]
    spec fn cancel_only_when_running(&self) -> bool {
        self.cancel_requested ==> self.running
    }

    /// An export is running.
    pub closed spec fn spec_running(&self) -> bool {
        self.running
    }

    /// The running export was asked to stop.
    pub closed spec fn spec_cancel_requested(&self) -> bool {
        self.cancel_requested
    }

    /// A slot with no export.
    pub fn new() -> (r: ExportSlot)
        ensures
            !r.spec_running(),
            !r.spec_cancel_requested(),
    {
        ExportSlot { running: false, cancel_requested: false }
    }

    pub fn in_flight(&self) -> (r: bool)
        ensures
            r == self.spec_running(),
    {
        self.running
    }

    pub fn is_cancel_requested(&self) -> (r: bool)
        ensures
            r == self.spec_cancel_requested(),
            r ==> self.spec_running(),
    {
        proof {
            use_type_invariant(self);
        }
        self.cancel_requested
    }

    /// Answers an export request. While an export runs the request is
    /// refused; with no open timeline it is refused; with media files
    /// offline (`missing` holds their names, in timeline order) it fails
    /// with relink guidance; otherwise the export starts and occupies the
    /// slot.
    pub fn request_export(
        &mut self,
        has_timeline: bool,
        missing: &Vec<String>,
        hardware_accel_requested: bool,
        hardware_accel_available: bool,
    ) -> (r: ExportDecision)
        ensures
            (match r {
                ExportDecision::Refuse(m) => (old(self).spec_running() && m@ == busy_message()) || (
                !old(self).spec_running() && !has_timeline && m@ == no_timeline_message()),
                ExportDecision::Fail(m) => !old(self).spec_running() && has_timeline
                    && missing@.len() > 0 && m@ == offline_message(texts_of(missing@)),
                ExportDecision::Start { use_hardware_accel } => !old(self).spec_running()
                    && has_timeline && missing@.len() == 0 && use_hardware_accel == (
                hardware_accel_requested && hardware_accel_available),
            }),
            (r is Start) ==> final(self).spec_running() && !final(self).spec_cancel_requested(),
            !(r is Start) ==> final(self).spec_running() == old(self).spec_running()
                && final(self).spec_cancel_requested() == old(self).spec_cancel_requested(),
    {
        if self.running {
            let mut m = String::new();
            push_str(&mut m, "Export already in progress");
            assert(m@ =~= busy_message());
            return ExportDecision::Refuse(m);
        }
        if !has_timeline {
            let mut m = String::new();
            push_str(&mut m, "No active timeline to render");
            assert(m@ =~= no_timeline_message());
            return ExportDecision::Refuse(m);
        }
        if missing.len() > 0 {
            let m = offline_report(missing);
            return ExportDecision::Fail(m);
        }
        *self = ExportSlot { running: true, cancel_requested: false };
        ExportDecision::Start {
            use_hardware_accel: hardware_accel_requested && hardware_accel_available,
        }
    }

    /// Asks the running export, if any, to stop at its next checkpoint.
    pub fn cancel(&mut self)
        ensures
            final(self).spec_running() == old(self).spec_running(),
            final(self).spec_cancel_requested() == old(self).spec_running(),
    {
        proof {
            use_type_invariant(&*self);
        }
        if self.running {
            *self = ExportSlot { running: true, cancel_requested: true };
        }
    }

    /// The export ended (finished, failed or cancelled): the slot is free.
    pub fn finish(&mut self)
        ensures
            !final(self).spec_running(),
            !final(self).spec_cancel_requested(),
    {
        *self = ExportSlot { running: false, cancel_requested: false };
    }
}

/// The relink guidance for offline media files.
fn offline_report(missing: &Vec<String>) -> (r: String)
    ensures
        r@ == offline_message(texts_of(missing@)),
{
    let ghost all = texts_of(missing@);
    let shown_len: usize = if missing.len() <= 3 {
        missing.len()
    } else {
        3
    };
    let mut shown: Vec<String> = Vec::new();
    let mut i: usize = 0;
    while i < shown_len
        invariant
            shown_len <= missing@.len(),
            i <= shown_len,
            all == texts_of(missing@),
            shown@.len() == i,
            texts_of(shown@) == all.take(i as int),
        decreases shown_len - i,
    {
        let ghost before = shown@;
        let name = missing[i].clone();
        shown.push(name);
        proof {
            assert(shown@ == before.push(missing@[i as int]));
            assert(texts_of(shown@).len() == i + 1);
            assert forall|k: int| 0 <= k < i + 1 implies #[trigger] texts_of(shown@)[k] == all.take(
                i + 1,
            )[k] by {
                if k < i {
                    assert(texts_of(before)[k] == all.take(i as int)[k]);
                }
            }
        }
        i = i + 1;
        assert(texts_of(shown@) =~= all.take(i as int));
    }
    let names = join_strings(&shown, ", ");
    let mut m = String::new();
    push_decimal(&mut m, missing.len() as u64);
    push_str(&mut m, " media file(s) offline (");
    push_str(&mut m, names.as_str());
    push_str(&mut m, "…). Relink them in the Assets panel, then export again.");
    proof {
        assert(all.len() == missing@.len());
        if missing@.len() <= 3 {
            assert(all.take(shown_len as int) =~= all);
        }
        let shown_all = if all.len() <= 3 {
            all
        } else {
            all.take(3)
        };
        assert(texts_of(shown@) == shown_all);
        assert(names@ == joined(shown_all, ", "@));
    }
    assert(m@ =~= offline_message(all));
    m
}

/// Answers a request for an export plan: it needs an open timeline.
pub fn request_plan(has_timeline: bool) -> (r: Result<(), String>)
    ensures
        (match r {
            Ok(()) => has_timeline,
            Err(m) => !has_timeline && m@ == no_timeline_message(),
        }),
{
    if has_timeline {
        Ok(())
    } else {
        let mut m = String::new();
        push_str(&mut m, "No active timeline to render");
        assert(m@ =~= no_timeline_message());
        Err(m)
    }
}

} // verus!
