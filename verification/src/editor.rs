//! The editor's status state and how each backend event changes it: the
//! status line, the dirty flag, undo availability, the background-job
//! counter, the export overlay and results, selection, and markers; and
//! the list of the project's assets as asset events change it.
use crate::asset::{Asset, AssetStatus};
use crate::desktop::TimelineMarker;
use crate::text::{decimal, push_decimal, push_signed, push_str, signed_decimal};
use vstd::prelude::*;

verus! {

/// A backend event, with the plain values the status state reads.
#[derive(Debug, Clone)]
pub enum EditorEvent {
    ProjectCreated,
    ProjectOpened { markers: Vec<TimelineMarker> },
    ProjectSaved { path: String },
    ProjectClosed,
    TimelineUpdated,
    PlayheadMoved { timestamp_us: i64 },
    PlaybackStarted,
    PlaybackPaused,
    PlaybackStopped,
    PreviewFrameFailed { error: String },
    RenderPlanReady { clips: u64 },
    RenderStarted { output: String },
    RenderFinished { output: String },
    RenderFailed { error: String },
    AssetsLoaded,
    AssetImported,
    AssetDeleted { asset_id: u128 },
    JobQueued { kind: String },
    JobStarted,
    JobProgress { progress: u8 },
    /// A background job finished, failed or was canceled.
    JobEnded,
    UndoStackChanged { can_undo: bool, can_redo: bool },
    Error { message: String },
}

/// What the status bar, overlays and selection show.
#[derive(Debug, Clone)]
pub struct EditorStatus {
    pub status_msg: String,
    pub project_open: bool,
    pub project_path: Option<String>,
    pub project_dirty: bool,
    pub playhead_us: i64,
    pub playback_state: String,
    pub background_jobs: u32,
    pub can_undo: bool,
    pub can_redo: bool,
    pub last_error: Option<String>,
    pub blocking_operation: Option<String>,
    pub last_render_result: Option<String>,
    pub last_render_plan_summary: Option<String>,
    pub selected_asset_id: Option<u128>,
    pub selected_clip_id: Option<u128>,
    pub asset_search_query: String,
    pub last_requested_preview_us: Option<i64>,
    pub markers: Vec<TimelineMarker>,
}

/// The status state as values.
#[verifier::ext_equal]
pub struct EditorStatusView {
    pub status_msg: Seq<char>,
    pub project_open: bool,
    pub project_path: Option<Seq<char>>,
    pub project_dirty: bool,
    pub playhead_us: i64,
    pub playback_state: Seq<char>,
    pub background_jobs: u32,
    pub can_undo: bool,
    pub can_redo: bool,
    pub last_error: Option<Seq<char>>,
    pub blocking_operation: Option<Seq<char>>,
    pub last_render_result: Option<Seq<char>>,
    pub last_render_plan_summary: Option<Seq<char>>,
    pub selected_asset_id: Option<u128>,
    pub selected_clip_id: Option<u128>,
    pub asset_search_query: Seq<char>,
    pub last_requested_preview_us: Option<i64>,
    pub markers: Seq<(i64, Seq<char>)>,
}

/// The view of an optional string.
pub open spec fn opt_text(o: Option<String>) -> Option<Seq<char>> {
    match o {
        Some(s) => Some(s@),
        None => None,
    }
}

/// The markers as (time, label) pairs.
pub open spec fn marker_values(m: Seq<TimelineMarker>) -> Seq<(i64, Seq<char>)> {
    m.map_values(|k: TimelineMarker| (k.timestamp_us, k.label@))
}

impl View for EditorStatus {
    type V = EditorStatusView;

    open spec fn view(&self) -> EditorStatusView {
        EditorStatusView {
            status_msg: self.status_msg@,
            project_open: self.project_open,
            project_path: opt_text(self.project_path),
            project_dirty: self.project_dirty,
            playhead_us: self.playhead_us,
            playback_state: self.playback_state@,
            background_jobs: self.background_jobs,
            can_undo: self.can_undo,
            can_redo: self.can_redo,
            last_error: opt_text(self.last_error),
            blocking_operation: opt_text(self.blocking_operation),
            last_render_result: opt_text(self.last_render_result),
            last_render_plan_summary: opt_text(self.last_render_plan_summary),
            selected_asset_id: self.selected_asset_id,
            selected_clip_id: self.selected_clip_id,
            asset_search_query: self.asset_search_query@,
            last_requested_preview_us: self.last_requested_preview_us,
            markers: marker_values(self.markers@),
        }
    }
}

/// The state of a fresh editor window.
pub open spec fn initial_status() -> EditorStatusView {
    EditorStatusView {
        status_msg: "Ready"@,
        project_open: false,
        project_path: None,
        project_dirty: false,
        playhead_us: 0,
        playback_state: "Stopped"@,
        background_jobs: 0,
        can_undo: false,
        can_redo: false,
        last_error: None,
        blocking_operation: None,
        last_render_result: None,
        last_render_plan_summary: None,
        selected_asset_id: None,
        selected_clip_id: None,
        asset_search_query: Seq::empty(),
        last_requested_preview_us: None,
        markers: Seq::empty(),
    }
}

/// The state after a project is closed, from state `s`.
pub open spec fn closed_status(s: EditorStatusView) -> EditorStatusView {
    EditorStatusView {
        status_msg: "Project closed"@,
        project_open: false,
        project_dirty: false,
        playhead_us: 0,
        background_jobs: 0,
        can_undo: false,
        can_redo: false,
        blocking_operation: None,
        last_render_result: None,
        selected_asset_id: None,
        selected_clip_id: None,
        asset_search_query: Seq::empty(),
        last_requested_preview_us: None,
        markers: Seq::empty(),
        ..s
    }
}

/// How one event changes the status state.
pub open spec fn next_status(s: EditorStatusView, e: EditorEvent) -> EditorStatusView {
    match e {
        EditorEvent::ProjectCreated => EditorStatusView {
            project_open: true,
            project_path: None,
            playhead_us: 0,
            project_dirty: false,
            selected_clip_id: None,
            selected_asset_id: None,
            status_msg: "Project initialized"@,
            ..s
        },
        EditorEvent::ProjectOpened { markers } => EditorStatusView {
            project_open: true,
            playhead_us: 0,
            project_dirty: false,
            markers: marker_values(markers@),
            status_msg: "Project opened"@,
            ..s
        },
        EditorEvent::ProjectSaved { path } => EditorStatusView {
            project_path: Some(path@),
            project_dirty: false,
            status_msg: "Project saved"@,
            ..s
        },
        EditorEvent::ProjectClosed => closed_status(s),
        EditorEvent::TimelineUpdated => EditorStatusView { project_dirty: true, ..s },
        EditorEvent::PlayheadMoved { timestamp_us } => EditorStatusView {
            playhead_us: timestamp_us,
            status_msg: "Playhead: "@ + signed_decimal(timestamp_us as int),
            ..s
        },
        EditorEvent::PlaybackStarted => EditorStatusView {
            playback_state: "Playing"@,
            status_msg: "Playing"@,
            ..s
        },
        EditorEvent::PlaybackPaused => EditorStatusView {
            playback_state: "Paused"@,
            status_msg: "Paused"@,
            ..s
        },
        EditorEvent::PlaybackStopped => EditorStatusView {
            playback_state: "Stopped"@,
            status_msg: "Stopped"@,
            ..s
        },
        EditorEvent::PreviewFrameFailed { error } => EditorStatusView {
            status_msg: "Preview error: "@ + error@,
            ..s
        },
        EditorEvent::RenderPlanReady { clips } => EditorStatusView {
            last_render_plan_summary: Some(
                "Render plan ready: "@ + decimal(clips as nat) + " clips"@,
            ),
            status_msg: "Render plan ready"@,
            ..s
        },
        EditorEvent::RenderStarted { output } => EditorStatusView {
            blocking_operation: Some("Exporting to "@ + output@ + "…"@),
            status_msg: "Exporting to "@ + output@ + "…"@,
            last_render_result: None,
            ..s
        },
        EditorEvent::RenderFinished { output } => EditorStatusView {
            blocking_operation: None,
            status_msg: "Export complete"@,
            last_render_result: Some("Exported to "@ + output@),
            ..s
        },
        EditorEvent::RenderFailed { error } => EditorStatusView {
            blocking_operation: None,
            status_msg: "Export failed"@,
            last_render_result: Some("Export failed: "@ + error@),
            ..s
        },
        EditorEvent::AssetsLoaded => EditorStatusView { asset_search_query: Seq::empty(), ..s },
        EditorEvent::AssetImported => EditorStatusView { project_dirty: true, ..s },
        EditorEvent::AssetDeleted { asset_id } => EditorStatusView {
            project_dirty: true,
            selected_asset_id: if s.selected_asset_id == Some(asset_id) {
                None
            } else {
                s.selected_asset_id
            },
            ..s
        },
        EditorEvent::JobQueued { kind } => EditorStatusView {
            status_msg: "Queued: "@ + kind@,
            ..s
        },
        EditorEvent::JobStarted => EditorStatusView {
            background_jobs: (s.background_jobs + 1) as u32,
            ..s
        },
        EditorEvent::JobProgress { progress } => EditorStatusView {
            status_msg: "Background job… "@ + decimal(progress as nat) + "%"@,
            ..s
        },
        EditorEvent::JobEnded => {
            let n: u32 = if s.background_jobs > 0 {
                (s.background_jobs - 1) as u32
            } else {
                0
            };
            EditorStatusView {
                background_jobs: n,
                status_msg: if n == 0 {
                    "Ready"@
                } else {
                    s.status_msg
                },
                ..s
            }
        },
        EditorEvent::UndoStackChanged { can_undo, can_redo } => EditorStatusView {
            can_undo,
            can_redo,
            ..s
        },
        EditorEvent::Error { message } => EditorStatusView {
            last_error: Some(message@),
            status_msg: "Error: "@ + message@,
            ..s
        },
    }
}

/// A `String` holding `prefix` followed by `t`.
fn prefixed(prefix: &str, t: &str) -> (r: String)
    ensures
        r@ == prefix@ + t@,
{
    let mut s = String::new();
    push_str(&mut s, prefix);
    push_str(&mut s, t);
    assert(s@ =~= prefix@ + t@);
    s
}

/// A `String` holding a string slice.
fn text(t: &str) -> (r: String)
    ensures
        r@ == t@,
{
    let mut s = String::new();
    push_str(&mut s, t);
    assert(s@ =~= t@);
    s
}

impl EditorStatus {
    /// The state of a fresh editor window.
    pub fn new() -> (r: EditorStatus)
        ensures
            r@ == initial_status(),
    {
        let r = EditorStatus {
            status_msg: text("Ready"),
            project_open: false,
            project_path: None,
            project_dirty: false,
            playhead_us: 0,
            playback_state: text("Stopped"),
            background_jobs: 0,
            can_undo: false,
            can_redo: false,
            last_error: None,
            blocking_operation: None,
            last_render_result: None,
            last_render_plan_summary: None,
            selected_asset_id: None,
            selected_clip_id: None,
            asset_search_query: String::new(),
            last_requested_preview_us: None,
            markers: Vec::new(),
        };
        assert(r@.markers =~= Seq::<(i64, Seq<char>)>::empty());
        assert(r@ =~= initial_status());
        r
    }

    /// Applies one backend event. A started job is counted only while the
    /// count is below `u32::MAX`.
    pub fn apply(&mut self, event: EditorEvent)
        requires
            (event is JobStarted) ==> old(self).background_jobs < u32::MAX,
        ensures
            final(self)@ == next_status(old(self)@, event),
    {
        let ghost e = event;
        let ghost before = self@;
        match event {
            EditorEvent::ProjectCreated => {
                self.project_open = true;
                self.project_path = None;
                self.playhead_us = 0;
                self.project_dirty = false;
                self.selected_clip_id = None;
                self.selected_asset_id = None;
                self.status_msg = text("Project initialized");
            },
            EditorEvent::ProjectOpened { markers } => {
                self.project_open = true;
                self.playhead_us = 0;
                self.project_dirty = false;
                self.markers = markers;
                self.status_msg = text("Project opened");
            },
            EditorEvent::ProjectSaved { path } => {
                self.project_path = Some(path);
                self.project_dirty = false;
                self.status_msg = text("Project saved");
            },
            EditorEvent::ProjectClosed => {
                self.project_open = false;
                self.selected_asset_id = None;
                self.selected_clip_id = None;
                self.last_render_result = None;
                self.project_dirty = false;
                self.asset_search_query = String::new();
                self.markers = Vec::new();
                self.blocking_operation = None;
                self.background_jobs = 0;
                self.can_undo = false;
                self.can_redo = false;
                self.last_requested_preview_us = None;
                self.playhead_us = 0;
                self.status_msg = text("Project closed");
                assert(self@.markers =~= Seq::<(i64, Seq<char>)>::empty());
            },
            EditorEvent::TimelineUpdated => {
                self.project_dirty = true;
            },
            EditorEvent::PlayheadMoved { timestamp_us } => {
                self.playhead_us = timestamp_us;
                let mut m = text("Playhead: ");
                push_signed(&mut m, timestamp_us);
                self.status_msg = m;
            },
            EditorEvent::PlaybackStarted => {
                self.playback_state = text("Playing");
                self.status_msg = text("Playing");
            },
            EditorEvent::PlaybackPaused => {
                self.playback_state = text("Paused");
                self.status_msg = text("Paused");
            },
            EditorEvent::PlaybackStopped => {
                self.playback_state = text("Stopped");
                self.status_msg = text("Stopped");
            },
            EditorEvent::PreviewFrameFailed { error } => {
                self.status_msg = prefixed("Preview error: ", error.as_str());
            },
            EditorEvent::RenderPlanReady { clips } => {
                let mut m = text("Render plan ready: ");
                push_decimal(&mut m, clips);
                push_str(&mut m, " clips");
                self.last_render_plan_summary = Some(m);
                self.status_msg = text("Render plan ready");
            },
            EditorEvent::RenderStarted { output } => {
                let mut m = prefixed("Exporting to ", output.as_str());
                push_str(&mut m, "…");
                let m2 = m.clone();
                self.blocking_operation = Some(m);
                self.status_msg = m2;
                self.last_render_result = None;
            },
            EditorEvent::RenderFinished { output } => {
                self.blocking_operation = None;
                self.status_msg = text("Export complete");
                self.last_render_result = Some(prefixed("Exported to ", output.as_str()));
            },
            EditorEvent::RenderFailed { error } => {
                self.blocking_operation = None;
                self.status_msg = text("Export failed");
                self.last_render_result = Some(prefixed("Export failed: ", error.as_str()));
            },
            EditorEvent::AssetsLoaded => {
                self.asset_search_query = String::new();
            },
            EditorEvent::AssetImported => {
                self.project_dirty = true;
            },
            EditorEvent::AssetDeleted { asset_id } => {
                self.project_dirty = true;
                if self.selected_asset_id == Some(asset_id) {
                    self.selected_asset_id = None;
                }
            },
            EditorEvent::JobQueued { kind } => {
                self.status_msg = prefixed("Queued: ", kind.as_str());
            },
            EditorEvent::JobStarted => {
                self.background_jobs = self.background_jobs + 1;
            },
            EditorEvent::JobProgress { progress } => {
                let mut m = text("Background job… ");
                push_decimal(&mut m, progress as u64);
                push_str(&mut m, "%");
                self.status_msg = m;
            },
            EditorEvent::JobEnded => {
                let n: u32 = if self.background_jobs > 0 {
                    self.background_jobs - 1
                } else {
                    0
                };
                self.background_jobs = n;
                if n == 0 {
                    self.status_msg = text("Ready");
                }
            },
            EditorEvent::UndoStackChanged { can_undo, can_redo } => {
                self.can_undo = can_undo;
                self.can_redo = can_redo;
            },
            EditorEvent::Error { message } => {
                self.status_msg = prefixed("Error: ", message.as_str());
                self.last_error = Some(message);
            },
        }
        assert(self@ =~= next_status(before, e));
    }
}

/// Closing a project twice leaves the same state as closing it once.
pub proof fn law_close_is_idempotent(s: EditorStatusView)
    ensures
        next_status(next_status(s, EditorEvent::ProjectClosed), EditorEvent::ProjectClosed)
            == next_status(s, EditorEvent::ProjectClosed),
{
    assert(next_status(next_status(s, EditorEvent::ProjectClosed), EditorEvent::ProjectClosed)
        =~= next_status(s, EditorEvent::ProjectClosed));
}

/// A background job that starts and then ends leaves the job count where
/// it was.
pub proof fn law_job_count_balances(s: EditorStatusView)
    requires
        s.background_jobs < u32::MAX,
    ensures
        next_status(next_status(s, EditorEvent::JobStarted), EditorEvent::JobEnded).background_jobs
            == s.background_jobs,
{
}

/// The job count never goes below zero: an end with no job running leaves
/// it at zero and the status line at `Ready`.
pub proof fn law_job_count_saturates(s: EditorStatusView)
    requires
        s.background_jobs == 0,
    ensures
        next_status(s, EditorEvent::JobEnded).background_jobs == 0,
        next_status(s, EditorEvent::JobEnded).status_msg == "Ready"@,
{
}

/// Saving clears the unsaved-changes flag; any timeline edit, import or
/// deletion sets it.
pub proof fn law_dirty_tracking(s: EditorStatusView, path: String, asset_id: u128)
    ensures
        !next_status(s, EditorEvent::ProjectSaved { path }).project_dirty,
        next_status(s, EditorEvent::TimelineUpdated).project_dirty,
        next_status(s, EditorEvent::AssetImported).project_dirty,
        next_status(s, EditorEvent::AssetDeleted { asset_id }).project_dirty,
{
}

/// Creating, opening or closing a project leaves no unsaved changes,
/// whatever the state before.
pub proof fn law_fresh_project_is_clean(s: EditorStatusView, markers: Vec<TimelineMarker>)
    ensures
        !next_status(s, EditorEvent::ProjectCreated).project_dirty,
        !next_status(s, EditorEvent::ProjectOpened { markers }).project_dirty,
        !next_status(s, EditorEvent::ProjectClosed).project_dirty,
{
}

/// An export shows the blocking overlay while it runs and clears it when it
/// ends either way, leaving a result; a new export clears the old result.
pub proof fn law_export_overlay(s: EditorStatusView, output: String, error: String)
    ensures
        next_status(s, EditorEvent::RenderStarted { output }).blocking_operation is Some,
        next_status(s, EditorEvent::RenderStarted { output }).last_render_result is None,
        next_status(s, EditorEvent::RenderFinished { output }).blocking_operation is None,
        next_status(s, EditorEvent::RenderFinished { output }).last_render_result is Some,
        next_status(s, EditorEvent::RenderFailed { error }).blocking_operation is None,
        next_status(s, EditorEvent::RenderFailed { error }).last_render_result is Some,
{
}

/// Closing a project leaves no project, selection, markers, search,
/// background jobs, overlay or undo history, with the playhead at 0.
pub proof fn law_close_resets(s: EditorStatusView)
    ensures
        ({
            let c = next_status(s, EditorEvent::ProjectClosed);
            &&& !c.project_open
            &&& c.selected_asset_id is None
            &&& c.selected_clip_id is None
            &&& c.markers.len() == 0
            &&& c.asset_search_query.len() == 0
            &&& c.background_jobs == 0
            &&& c.blocking_operation is None
            &&& !c.can_undo && !c.can_redo
            &&& c.playhead_us == 0
        }),
{
}

/// The first position of an asset with identifier `id`.
pub open spec fn first_asset_at(s: Seq<Asset>, id: u128) -> Option<int>
    decreases s.len(),
{
    if s.len() == 0 {
        None
    } else if s[0].id == id {
        Some(0)
    } else {
        match first_asset_at(s.drop_first(), id) {
            Some(i) => Some(i + 1),
            None => None,
        }
    }
}

/// The assets other than those with identifier `id`, in order.
pub open spec fn assets_without(s: Seq<Asset>, id: u128) -> Seq<Asset>
    decreases s.len(),
{
    if s.len() == 0 {
        s
    } else {
        let rest = assets_without(s.drop_last(), id);
        if s.last().id == id {
            rest
        } else {
            rest.push(s.last())
        }
    }
}

proof fn lemma_first_asset_at(s: Seq<Asset>, id: u128, i: int)
    requires
        0 <= i <= s.len(),
        forall|j: int| 0 <= j < i ==> #[trigger] s[j].id != id,
    ensures
        i < s.len() && s[i].id == id ==> first_asset_at(s, id) == Some(i),
        i == s.len() ==> first_asset_at(s, id) is None,
    decreases i,
{
    if i > 0 {
        let t = s.drop_first();
        assert forall|j: int| 0 <= j < i - 1 implies #[trigger] t[j].id != id by {
            assert(t[j] == s[j + 1]);
        }
        lemma_first_asset_at(t, id, i - 1);
        assert(s[0].id != id);
        if i < s.len() {
            assert(t[i - 1] == s[i]);
        }
    }
}

/// The asset generating its proxy, `progress` percent done.
pub open spec fn proxy_generating(a: Asset, progress: u8) -> Asset {
    Asset { status: AssetStatus::ProxyGenerating { progress }, ..a }
}

/// The project's assets as the asset panel lists them.
pub struct AssetList {
    pub assets: Vec<Asset>,
}

impl AssetList {
    /// No assets (no project open).
    pub fn new() -> (r: AssetList)
        ensures
            r.assets@ == Seq::<Asset>::empty(),
    {
        AssetList { assets: Vec::new() }
    }

    /// The project's assets were loaded: they replace the list.
    pub fn loaded(&mut self, assets: Vec<Asset>)
        ensures
            final(self).assets@ == assets@,
    {
        self.assets = assets;
    }

    /// An asset was imported: it joins the end of the list.
    pub fn imported(&mut self, asset: Asset)
        ensures
            final(self).assets@ == old(self).assets@.push(asset),
    {
        self.assets.push(asset);
    }

    /// Position of the first asset with identifier `id`.
    fn position(&self, id: u128) -> (r: Option<usize>)
        ensures
            match r {
                Some(i) => i < self.assets@.len() && first_asset_at(self.assets@, id) == Some(i as int),
                None => first_asset_at(self.assets@, id) is None,
            },
    {
        let mut i: usize = 0;
        while i < self.assets.len()
            invariant
                i <= self.assets@.len(),
                forall|j: int| 0 <= j < i ==> #[trigger] self.assets@[j].id != id,
            decreases self.assets@.len() - i,
        {
            if self.assets[i].id == id {
                proof {
                    lemma_first_asset_at(self.assets@, id, i as int);
                }
                return Some(i);
            }
            i = i + 1;
        }
        proof {
            lemma_first_asset_at(self.assets@, id, i as int);
        }
        None
    }

    /// An asset was updated, analyzed or got its proxy: it replaces the
    /// first listed asset with its identifier; an unlisted asset is
    /// ignored.
    pub fn updated(&mut self, asset: Asset)
        ensures
            final(self).assets@ == match first_asset_at(old(self).assets@, asset.id) {
                Some(i) => old(self).assets@.update(i, asset),
                None => old(self).assets@,
            },
    {
        match self.position(asset.id) {
            Some(i) => {
                self.assets.set(i, asset);
            },
            None => {},
        }
    }

    /// Proxy generation of asset `id` reached `progress` percent: the first
    /// listed asset with that identifier shows it; nothing else changes.
    pub fn proxy_progress(&mut self, id: u128, progress: u8)
        ensures
            final(self).assets@ == match first_asset_at(old(self).assets@, id) {
                Some(i) => old(self).assets@.update(i, proxy_generating(old(self).assets@[i], progress)),
                None => old(self).assets@,
            },
    {
        match self.position(id) {
            Some(i) => {
                let ghost before = self.assets@;
                let mut a = self.assets.remove(i);
                a.status = AssetStatus::ProxyGenerating { progress };
                self.assets.insert(i, a);
                assert(self.assets@ =~= before.update(i as int, proxy_generating(before[i as int], progress)));
            },
            None => {},
        }
    }

    /// Asset `id` was deleted: every listed asset with that identifier
    /// leaves the list; the rest keep their order.
    pub fn deleted(&mut self, id: u128)
        ensures
            final(self).assets@ == assets_without(old(self).assets@, id),
    {
        let mut kept: Vec<Asset> = Vec::new();
        let mut all: Vec<Asset> = Vec::new();
        std::mem::swap(&mut all, &mut self.assets);
        let ghost before = all@;
        let mut rest: Vec<Asset> = Vec::new();
        // Take the assets from the back, then restore their order.
        while all.len() > 0
            invariant
                before.len() == all@.len() + rest@.len(),
                all@ == before.take(all@.len() as int),
                forall|k: int| 0 <= k < rest@.len() ==> #[trigger] rest@[k] == before[before.len() - 1 - k],
            decreases all@.len(),
        {
            let a = all.pop().unwrap();
            rest.push(a);
            assert(all@ =~= before.take(all@.len() as int));
        }
        while rest.len() > 0
            invariant
                rest@.len() <= before.len(),
                forall|k: int| 0 <= k < rest@.len() ==> #[trigger] rest@[k] == before[before.len() - 1 - k],
                kept@ == assets_without(before.take(before.len() - rest@.len()), id),
            decreases rest@.len(),
        {
            let a = rest.pop().unwrap();
            let ghost n = before.len() - rest@.len();
            assert(before.take(n).drop_last() =~= before.take(n - 1));
            assert(before.take(n).last() == a);
            if a.id != id {
                kept.push(a);
            }
        }
        assert(before.take(before.len() as int) =~= before);
        self.assets = kept;
    }

    /// The project was closed: no assets.
    pub fn cleared(&mut self)
        ensures
            final(self).assets@ == Seq::<Asset>::empty(),
    {
        self.assets = Vec::new();
    }
}

} // verus!
