//! Display helpers of the editor: ruler and inspector time formats, the
//! transport timecode, keyframe parameter labels, file names of media
//! paths, and the storage keys of the web shell.
use crate::text::{
    chars_of, decimal, padded, push_char, push_decimal, push_padded, push_str, str_is,
    string_of,
};
use crate::ai::{lowercased, positions_holding, search_segments};
use crate::text::{lowercase, texts_of};
use crate::timeline::{clip_end, end_fits, ClipPlacement, TimelineClips};
use vstd::prelude::*;

verus! {

/// A named point on the timeline ruler.
#[derive(Debug, Clone)]
pub struct TimelineMarker {
    pub timestamp_us: i64,
    pub label: String,
}

/// Where a dragged edge lands, and the snap guide it met, if any.
#[derive(Debug, Clone, Copy)]
pub struct SnapResult {
    pub value_us: i64,
    pub guide_us: Option<i64>,
}

/// `us` clamped below at zero, as a natural number.
pub open spec fn non_negative(us: int) -> nat {
    if us < 0 {
        0
    } else {
        us as nat
    }
}

/// The ruler label of a time in microseconds: `M:SS.t` from one minute on,
/// `S.ts` below (tenths of a second, truncated; negative times read as 0).
pub open spec fn ruler_text(us: int) -> Seq<char> {
    let ms = non_negative(us) / 1000;
    let total_sec = ms / 1000;
    let min = total_sec / 60;
    let sec = total_sec % 60;
    let tenths = (ms % 1000) / 100;
    if min > 0 {
        decimal(min) + ":"@ + padded(sec, 2) + "."@ + decimal(tenths)
    } else {
        decimal(sec) + "."@ + decimal(tenths) + "s"@
    }
}

/// Ruler label of a time in microseconds.
pub fn format_ruler_time(us: i64) -> (r: String)
    ensures
        r@ == ruler_text(us as int),
{
    let v: u64 = if us < 0 {
        0
    } else {
        us as u64
    };
    let ms = v / 1000;
    let total_sec = ms / 1000;
    let min = total_sec / 60;
    let sec = total_sec % 60;
    let tenths = (ms % 1000) / 100;
    let mut s = String::new();
    if min > 0 {
        push_decimal(&mut s, min);
        push_char(&mut s, ':');
        push_padded(&mut s, sec, 2);
        push_char(&mut s, '.');
        push_decimal(&mut s, tenths);
    } else {
        push_decimal(&mut s, sec);
        push_char(&mut s, '.');
        push_decimal(&mut s, tenths);
        push_char(&mut s, 's');
    }
    proof {
        reveal_strlit(":");
        reveal_strlit(".");
        reveal_strlit("s");
    }
    assert(s@ =~= ruler_text(us as int));
    s
}

/// The magnitude of `us`.
pub open spec fn magnitude(us: int) -> nat {
    if us < 0 {
        (-us) as nat
    } else {
        us as nat
    }
}

/// A duration in microseconds as the inspector shows it, sign dropped:
/// `HH:MM:SS.mmm` from an hour on, `MM:SS.mmm` from a minute on, else
/// `S.mmms` (milliseconds, truncated).
pub open spec fn duration_text(us: int) -> Seq<char> {
    let millis = magnitude(us) / 1000;
    let secs = millis / 1000;
    let mins = secs / 60;
    let hours = mins / 60;
    if hours > 0 {
        padded(hours, 2) + ":"@ + padded(mins % 60, 2) + ":"@ + padded(secs % 60, 2) + "."@
            + padded(millis % 1000, 3)
    } else if mins > 0 {
        padded(mins, 2) + ":"@ + padded(secs % 60, 2) + "."@ + padded(millis % 1000, 3)
    } else {
        decimal(secs) + "."@ + padded(millis % 1000, 3) + "s"@
    }
}

/// Inspector label of a duration (or time) in microseconds.
pub fn format_us(us: i64) -> (r: String)
    ensures
        r@ == duration_text(us as int),
{
    let abs: u64 = if us < 0 {
        (0 - (us + 1)) as u64 + 1
    } else {
        us as u64
    };
    let millis = abs / 1000;
    let secs = millis / 1000;
    let mins = secs / 60;
    let hours = mins / 60;
    let mut s = String::new();
    if hours > 0 {
        push_padded(&mut s, hours, 2);
        push_char(&mut s, ':');
        push_padded(&mut s, mins % 60, 2);
        push_char(&mut s, ':');
        push_padded(&mut s, secs % 60, 2);
        push_char(&mut s, '.');
        push_padded(&mut s, millis % 1000, 3);
    } else if mins > 0 {
        push_padded(&mut s, mins, 2);
        push_char(&mut s, ':');
        push_padded(&mut s, secs % 60, 2);
        push_char(&mut s, '.');
        push_padded(&mut s, millis % 1000, 3);
    } else {
        push_decimal(&mut s, secs);
        push_char(&mut s, '.');
        push_padded(&mut s, millis % 1000, 3);
        push_char(&mut s, 's');
    }
    proof {
        reveal_strlit(":");
        reveal_strlit(".");
        reveal_strlit("s");
    }
    assert(s@ =~= duration_text(us as int));
    s
}

/// The transport timecode of a time in microseconds: `HH:MM:SS` from an
/// hour on, else `MM:SS` (whole seconds; negative times read as 0).
pub open spec fn clock_text(us: int) -> Seq<char> {
    let total_secs = non_negative(us) / 1_000_000;
    let secs = total_secs % 60;
    let mins = (total_secs / 60) % 60;
    let hours = total_secs / 3600;
    if hours > 0 {
        padded(hours, 2) + ":"@ + padded(mins, 2) + ":"@ + padded(secs, 2)
    } else {
        padded(mins, 2) + ":"@ + padded(secs, 2)
    }
}

/// Transport timecode of a time in microseconds.
pub fn timecode_from_us(us: i64) -> (r: String)
    ensures
        r@ == clock_text(us as int),
{
    let v: u64 = if us < 0 {
        0
    } else {
        us as u64
    };
    let total_secs = v / 1_000_000;
    let secs = total_secs % 60;
    let mins = (total_secs / 60) % 60;
    let hours = total_secs / 3600;
    let mut s = String::new();
    if hours > 0 {
        push_padded(&mut s, hours, 2);
        push_char(&mut s, ':');
    }
    push_padded(&mut s, mins, 2);
    push_char(&mut s, ':');
    push_padded(&mut s, secs, 2);
    proof {
        reveal_strlit(":");
    }
    assert(s@ =~= clock_text(us as int));
    s
}

/// The label of an animatable parameter; unknown names are shown as they
/// are.
pub open spec fn param_label_text(param: Seq<char>) -> Seq<char> {
    if param == "opacity"@ {
        "Opacity"@
    } else if param == "volume"@ {
        "Volume"@
    } else if param == "speed"@ {
        "Speed"@
    } else if param == "transform.scale"@ {
        "Scale"@
    } else if param == "transform.translate_x"@ {
        "Pan X"@
    } else if param == "transform.translate_y"@ {
        "Pan Y"@
    } else if param == "transform.rotate"@ {
        "Rotate"@
    } else if param == "text.position_x"@ {
        "Position X"@
    } else if param == "text.position_y"@ {
        "Position Y"@
    } else if param == "text.font_size"@ {
        "Font Size"@
    } else if param == "mask.feather"@ {
        "Feather"@
    } else if param == "mask.scale"@ {
        "Mask Scale"@
    } else if param == "mask.translate_x"@ {
        "Mask Pan X"@
    } else if param == "mask.translate_y"@ {
        "Mask Pan Y"@
    } else if param == "mask.rotate"@ {
        "Mask Rotate"@
    } else {
        param
    }
}

/// A `String` holding a string slice.
fn owned(t: &str) -> (r: String)
    ensures
        r@ == t@,
{
    let mut s = String::new();
    push_str(&mut s, t);
    assert(s@ =~= t@);
    s
}

/// Inspector label of an animatable parameter.
pub fn param_label(param: &str) -> (r: String)
    ensures
        r@ == param_label_text(param@),
{
    if str_is(param, "opacity") {
        owned("Opacity")
    } else if str_is(param, "volume") {
        owned("Volume")
    } else if str_is(param, "speed") {
        owned("Speed")
    } else if str_is(param, "transform.scale") {
        owned("Scale")
    } else if str_is(param, "transform.translate_x") {
        owned("Pan X")
    } else if str_is(param, "transform.translate_y") {
        owned("Pan Y")
    } else if str_is(param, "transform.rotate") {
        owned("Rotate")
    } else if str_is(param, "text.position_x") {
        owned("Position X")
    } else if str_is(param, "text.position_y") {
        owned("Position Y")
    } else if str_is(param, "text.font_size") {
        owned("Font Size")
    } else if str_is(param, "mask.feather") {
        owned("Feather")
    } else if str_is(param, "mask.scale") {
        owned("Mask Scale")
    } else if str_is(param, "mask.translate_x") {
        owned("Mask Pan X")
    } else if str_is(param, "mask.translate_y") {
        owned("Mask Pan Y")
    } else if str_is(param, "mask.rotate") {
        owned("Mask Rotate")
    } else {
        owned(param)
    }
}

/// A path separator on either platform.
pub open spec fn is_separator(c: char) -> bool {
    c == '/' || c == '\\'
}

/// The last component of a path: what follows its last `/` or `\`, or the
/// whole path when it has none.
pub open spec fn last_component(path: Seq<char>) -> Seq<char>
    decreases path.len(),
{
    if path.len() == 0 {
        path
    } else if is_separator(path.last()) {
        Seq::empty()
    } else {
        last_component(path.drop_last()).push(path.last())
    }
}

proof fn lemma_last_component_from(path: Seq<char>, k: int)
    requires
        0 <= k <= path.len(),
        k == 0 || is_separator(path[k - 1]),
        forall|j: int| k <= j < path.len() ==> !is_separator(#[trigger] path[j]),
    ensures
        last_component(path) == path.subrange(k, path.len() as int),
    decreases path.len(),
{
    if path.len() == 0 {
        assert(path.subrange(k, 0) =~= path);
    } else if k == path.len() {
        assert(path.subrange(k, k) =~= Seq::<char>::empty());
    } else {
        let p = path.drop_last();
        assert(!is_separator(path[path.len() - 1]));
        assert forall|j: int| k <= j < p.len() implies !is_separator(#[trigger] p[j]) by {
            assert(p[j] == path[j]);
        }
        if k > 0 {
            assert(p[k - 1] == path[k - 1]);
        }
        lemma_last_component_from(p, k);
        assert(path.subrange(k, path.len() as int) =~= p.subrange(k, p.len() as int).push(
            path.last(),
        ));
    }
}

/// The file name of a media path: its last `/`- or `\`-separated part.
pub fn filename(path: &str) -> (r: String)
    ensures
        r@ == last_component(path@),
{
    let chars = chars_of(path);
    let mut k: usize = chars.len();
    while k > 0 && chars[k - 1] != '/' && chars[k - 1] != '\\'
        invariant
            k <= chars@.len(),
            chars@ == path@,
            forall|j: int| k <= j < chars@.len() ==> !is_separator(#[trigger] chars@[j]),
        decreases k,
    {
        k = k - 1;
    }
    let mut tail: Vec<char> = Vec::new();
    let mut i: usize = k;
    while i < chars.len()
        invariant
            k <= i <= chars@.len(),
            tail@ == chars@.subrange(k as int, i as int),
        decreases chars.len() - i,
    {
        tail.push(chars[i]);
        i = i + 1;
        assert(tail@ =~= chars@.subrange(k as int, i as int));
    }
    proof {
        lemma_last_component_from(path@, k as int);
    }
    string_of(&tail)
}

/// The shortest timeline the editor lays out, in microseconds.
pub const MIN_TIMELINE_DURATION_US: i64 = 30_000_000;

/// Room left after the last clip, in microseconds.
pub const TIMELINE_PADDING_US: i64 = 5_000_000;

/// The laid-out length of a timeline whose last clip ends at `end_us`
/// (`None` with no timeline): at least `MIN_TIMELINE_DURATION_US`, plus
/// `TIMELINE_PADDING_US`, saturating at `i64::MAX`.
pub open spec fn laid_out_us(end_us: Option<i64>) -> int {
    let end: int = match end_us {
        Some(e) => e as int,
        None => MIN_TIMELINE_DURATION_US as int,
    };
    let at_least = if end < MIN_TIMELINE_DURATION_US {
        MIN_TIMELINE_DURATION_US as int
    } else {
        end
    };
    if at_least + TIMELINE_PADDING_US > i64::MAX {
        i64::MAX as int
    } else {
        at_least + TIMELINE_PADDING_US
    }
}

/// Laid-out length of the timeline, in microseconds.
pub fn timeline_duration_us(end_us: Option<i64>) -> (r: i64)
    ensures
        r == laid_out_us(end_us),
{
    let end = match end_us {
        Some(e) => e,
        None => MIN_TIMELINE_DURATION_US,
    };
    let at_least = if end < MIN_TIMELINE_DURATION_US {
        MIN_TIMELINE_DURATION_US
    } else {
        end
    };
    if at_least > i64::MAX - TIMELINE_PADDING_US {
        i64::MAX
    } else {
        at_least + TIMELINE_PADDING_US
    }
}

/// Directory of project snapshots in browser storage.
pub const DIR_PROJECTS: &'static str = "projects";

/// File of the autosave snapshot in browser storage.
pub const FILE_AUTOSAVE: &'static str = "autosave.json";

/// File of the recent-projects list in browser storage.
pub const FILE_RECENT: &'static str = "recent.json";

/// Storage key of a named project: `projects/<name>`.
pub fn project_key(name: &str) -> (r: String)
    ensures
        r@ == "projects/"@ + name@,
{
    let mut s = String::new();
    push_str(&mut s, "projects/");
    push_str(&mut s, name);
    assert(s@ =~= "projects/"@ + name@);
    s
}

/// The start and end of each clip of `s` on track `track`, other than
/// the clip `exclude`, in the clips' order.
pub open spec fn track_edges(s: Seq<ClipPlacement>, exclude: u128, track: int) -> Seq<i64>
    decreases s.len(),
{
    if s.len() == 0 {
        Seq::empty()
    } else {
        let c = s.last();
        let rest = track_edges(s.drop_last(), exclude, track);
        if c.track == track && c.id != exclude {
            rest.push(c.timeline_start).push(clip_end(c) as i64)
        } else {
            rest
        }
    }
}

/// The clip edges of tracks `0..tracks`, track by track.
pub open spec fn edges_by_track(s: Seq<ClipPlacement>, exclude: u128, tracks: nat) -> Seq<i64>
    decreases tracks,
{
    if tracks == 0 {
        Seq::empty()
    } else {
        edges_by_track(s, exclude, (tracks - 1) as nat) + track_edges(s, exclude, tracks - 1)
    }
}

/// What an edge may snap to: zero, the playhead, the markers, then the
/// start and end of every other clip, track by track.
pub open spec fn snap_candidate_list(
    s: Seq<ClipPlacement>,
    tracks: nat,
    exclude: u128,
    playhead_us: i64,
    markers: Seq<i64>,
) -> Seq<i64> {
    seq![0i64, playhead_us] + markers + edges_by_track(s, exclude, tracks)
}

/// The times an edge of clip `exclude_clip_id` may snap to: zero, the
/// playhead, the marker times, and the start and end of every other clip,
/// track by track.
pub fn snap_candidates(
    timeline: &TimelineClips,
    exclude_clip_id: u128,
    playhead_us: i64,
    marker_times: &Vec<i64>,
) -> (r: Vec<i64>)
    ensures
        r@ == snap_candidate_list(
            timeline.spec_clips(),
            timeline.spec_track_count(),
            exclude_clip_id,
            playhead_us,
            marker_times@,
        ),
{
    let clips = timeline.clips();
    let tracks = timeline.track_count();
    let mut r: Vec<i64> = Vec::new();
    r.push(0);
    r.push(playhead_us);
    let mut m: usize = 0;
    while m < marker_times.len()
        invariant
            m <= marker_times@.len(),
            r@ == seq![0i64, playhead_us] + marker_times@.subrange(0, m as int),
        decreases marker_times@.len() - m,
    {
        r.push(marker_times[m]);
        m = m + 1;
        assert(r@ =~= seq![0i64, playhead_us] + marker_times@.subrange(0, m as int));
    }
    assert(marker_times@.subrange(0, m as int) =~= marker_times@);
    let ghost head = r@;
    let mut t: usize = 0;
    while t < tracks
        invariant
            t <= tracks,
            tracks == timeline.spec_track_count(),
            clips@ == timeline.spec_clips(),
            forall|i: int| 0 <= i < clips@.len() ==> end_fits(#[trigger] clips@[i]),
            r@ == head + edges_by_track(clips@, exclude_clip_id, t as nat),
        decreases tracks - t,
    {
        let mut i: usize = 0;
        while i < clips.len()
            invariant
                t < tracks,
                i <= clips@.len(),
                forall|k: int| 0 <= k < clips@.len() ==> end_fits(#[trigger] clips@[k]),
                r@ == head + edges_by_track(clips@, exclude_clip_id, t as nat) + track_edges(
                    clips@.subrange(0, i as int),
                    exclude_clip_id,
                    t as int,
                ),
            decreases clips@.len() - i,
        {
            let c = &clips[i];
            let ghost before = clips@.subrange(0, i as int);
            assert(clips@.subrange(0, i + 1).drop_last() =~= before);
            if c.track == t && c.id != exclude_clip_id {
                r.push(c.timeline_start);
                r.push(c.timeline_start + c.effective_duration);
            }
            i = i + 1;
            assert(r@ =~= head + edges_by_track(clips@, exclude_clip_id, t as nat) + track_edges(
                clips@.subrange(0, i as int),
                exclude_clip_id,
                t as int,
            ));
        }
        assert(clips@.subrange(0, clips@.len() as int) =~= clips@);
        t = t + 1;
        assert(r@ =~= head + edges_by_track(clips@, exclude_clip_id, t as nat));
    }
    r
}

/// The assets the asset panel shows for a search, as positions into the
/// assets' names: every asset for an empty query, otherwise those whose
/// name, lower-cased (`str::to_lowercase`), holds the query lower-cased, in
/// order.
pub fn asset_search(names: &Vec<String>, query: &str) -> (r: Vec<usize>)
    ensures
        r@.map_values(|i: usize| i as int) == if query@.len() == 0 {
            Seq::new(names@.len(), |i: int| i)
        } else {
            positions_holding(lowercased(texts_of(names@)), lowercase(query@), names@.len())
        },
{
    if chars_of(query).len() == 0 {
        let mut r: Vec<usize> = Vec::new();
        let mut i: usize = 0;
        while i < names.len()
            invariant
                i <= names@.len(),
                r@.len() == i,
                forall|k: int| 0 <= k < i ==> r@[k] == k,
            decreases names@.len() - i,
        {
            r.push(i);
            i = i + 1;
        }
        assert(r@.map_values(|k: usize| k as int) =~= Seq::new(names@.len(), |k: int| k));
        r
    } else {
        search_segments(names, query)
    }
}

} // verus!
