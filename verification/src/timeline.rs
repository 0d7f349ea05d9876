//! The timeline's clip layout: where each clip sits (track, first frame,
//! length on the timeline), insertion with track and overlap checks,
//! removal, update, ripple delete, and the queries over it.
//!
//! A clip's length on the timeline is its source length adjusted by its
//! playback speed; the layout holds that length as computed for the clip.
use crate::ids::{is_v4_uuid, new_v4_uuid};
use crate::text::{push_signed, push_str, signed_decimal};
use crate::value_objects::{DomainError, Frame, FrameRange};
use vstd::prelude::*;

verus! {

/// Where a clip sits on the timeline.
#[derive(Debug, Clone, Copy, PartialEq, Eq, Structural)]
pub struct ClipPlacement {
    /// The clip's UUID.
    pub id: u128,
    pub track: usize,
    pub timeline_start: i64,
    /// Frames the clip lasts on the timeline.
    pub effective_duration: i64,
}

/// The first frame after the clip.
pub open spec fn clip_end(c: ClipPlacement) -> int {
    c.timeline_start + c.effective_duration
}

/// The clip's end is a representable frame.
pub open spec fn end_fits(c: ClipPlacement) -> bool {
    i64::MIN <= clip_end(c) <= i64::MAX
}

/// Two clips on one track share a frame.
pub open spec fn clips_overlap(a: ClipPlacement, b: ClipPlacement) -> bool {
    a.track == b.track && a.timeline_start < clip_end(b) && b.timeline_start < clip_end(a)
}

impl ClipPlacement {
    /// The frames the clip covers.
    pub fn timeline_range(&self) -> (r: FrameRange)
        requires
            end_fits(*self),
        ensures
            r.start.0 == self.timeline_start,
            r.end.0 == clip_end(*self),
    {
        FrameRange::new_unchecked(self.timeline_start, self.timeline_start + self.effective_duration)
    }

    /// The first frame after the clip.
    pub fn timeline_end(&self) -> (r: Frame)
        requires
            end_fits(*self),
        ensures
            r.0 == clip_end(*self),
    {
        Frame(self.timeline_start + self.effective_duration)
    }

    /// Both clips are on one track and share a frame.
    pub fn overlaps(&self, other: &ClipPlacement) -> (r: bool)
        requires
            end_fits(*self),
            end_fits(*other),
        ensures
            r == clips_overlap(*self, *other),
    {
        self.track == other.track && self.timeline_range().overlaps(&other.timeline_range())
    }
}

/// What clip edits read and change: the clip's identifier, its first frame
/// on the timeline, and the source frames it plays.
#[derive(Debug, Clone, Copy, PartialEq, Eq, Structural)]
pub struct ClipSource {
    /// The clip's UUID.
    pub id: u128,
    pub timeline_start: Frame,
    pub source_range: FrameRange,
}

/// The error of an operation the domain refuses, with its message.
pub open spec fn invalid_operation(e: DomainError, message: Seq<char>) -> bool {
    e matches DomainError::InvalidOperation(m) && m@ == message
}

/// How `{:?}` prints a frame range.
pub open spec fn frame_range_debug(start: int, end: int) -> Seq<char> {
    "FrameRange { start: Frame("@ + signed_decimal(start) + "), end: Frame("@ + signed_decimal(end)
        + ") }"@
}

impl ClipSource {
    /// Moves the clip's start later to `new_timeline_start`, dropping as many
    /// source frames. Refused when the start would not move later, or when
    /// the source would run out; the clip is then unchanged.
    pub fn trim_start(&mut self, new_timeline_start: Frame) -> (r: Result<(), DomainError>)
        requires
            i64::MIN <= new_timeline_start.0 - old(self).timeline_start.0 <= i64::MAX,
            new_timeline_start.0 > old(self).timeline_start.0 ==> old(self).source_range.start.0
                + (new_timeline_start.0 - old(self).timeline_start.0) <= i64::MAX,
        ensures
            ({
                let delta = new_timeline_start.0 - old(self).timeline_start.0;
                let new_source_start = old(self).source_range.start.0 + delta;
                match r {
                    Ok(()) => delta > 0 && new_source_start <= old(self).source_range.end.0
                        && *final(self) == ClipSource {
                        timeline_start: new_timeline_start,
                        source_range: FrameRange {
                            start: Frame(new_source_start as i64),
                            end: old(self).source_range.end,
                        },
                        ..*old(self)
                    },
                    Err(e) => *final(self) == *old(self) && if delta <= 0 {
                        invalid_operation(e, "Cannot extend clip past original start"@)
                    } else {
                        new_source_start > old(self).source_range.end.0 && e
                            == DomainError::InvalidFrameRange {
                            start: new_source_start as i64,
                            end: old(self).source_range.end.0,
                        }
                    },
                }
            }),
    {
        let delta = new_timeline_start.0 - self.timeline_start.0;
        if delta <= 0 {
            let mut m = String::new();
            push_str(&mut m, "Cannot extend clip past original start");
            assert(m@ =~= "Cannot extend clip past original start"@);
            return Err(DomainError::InvalidOperation(m));
        }
        let new_source_start = Frame(self.source_range.start.0 + delta);
        let range = match FrameRange::new(new_source_start, self.source_range.end) {
            Ok(range) => range,
            Err(e) => {
                return Err(e);
            },
        };
        self.source_range = range;
        self.timeline_start = new_timeline_start;
        Ok(())
    }

    /// Ends the clip at `new_timeline_end`, keeping as many source frames
    /// from its start as it then lasts. Refused when the clip would not last
    /// at least one frame; the clip is then unchanged.
    pub fn trim_end(&mut self, new_timeline_end: Frame) -> (r: Result<(), DomainError>)
        requires
            i64::MIN <= new_timeline_end.0 - old(self).timeline_start.0 <= i64::MAX,
            new_timeline_end.0 > old(self).timeline_start.0 ==> old(self).source_range.start.0
                + (new_timeline_end.0 - old(self).timeline_start.0) <= i64::MAX,
        ensures
            ({
                let new_duration = new_timeline_end.0 - old(self).timeline_start.0;
                match r {
                    Ok(()) => new_duration > 0 && *final(self) == ClipSource {
                        source_range: FrameRange {
                            start: old(self).source_range.start,
                            end: Frame((old(self).source_range.start.0 + new_duration) as i64),
                        },
                        ..*old(self)
                    },
                    Err(e) => *final(self) == *old(self) && new_duration <= 0 && invalid_operation(
                        e,
                        "Clip duration must be positive"@,
                    ),
                }
            }),
    {
        let new_duration = new_timeline_end.0 - self.timeline_start.0;
        if new_duration <= 0 {
            let mut m = String::new();
            push_str(&mut m, "Clip duration must be positive");
            assert(m@ =~= "Clip duration must be positive"@);
            return Err(DomainError::InvalidOperation(m));
        }
        let new_source_end = Frame(self.source_range.start.0 + new_duration);
        let range = match FrameRange::new(self.source_range.start, new_source_end) {
            Ok(range) => range,
            Err(e) => {
                return Err(e);
            },
        };
        self.source_range = range;
        Ok(())
    }

    /// Splits the clip at `split_frame`, given the number of frames it lasts
    /// on the timeline: the clip keeps the source frames before the split
    /// and the returned clip, with a new identifier, starts at the split
    /// with the rest. Refused when the split frame is not within the clip,
    /// or when the source holds no frames past the split; the clip is then
    /// unchanged.
    pub fn split_at(&mut self, split_frame: Frame, effective_duration: i64) -> (r: Result<
        ClipSource,
        DomainError,
    >)
        requires
            i64::MIN <= old(self).timeline_start.0 + effective_duration <= i64::MAX,
            old(self).timeline_start.0 <= split_frame.0 < old(self).timeline_start.0
                + effective_duration ==> old(self).source_range.start.0 + (split_frame.0 - old(
                self,
            ).timeline_start.0) <= i64::MAX,
        ensures
            ({
                let start = old(self).timeline_start.0;
                let end = start + effective_duration;
                let source_split = old(self).source_range.start.0 + (split_frame.0 - start);
                match r {
                    Ok(right) => start <= split_frame.0 < end && source_split
                        <= old(self).source_range.end.0 && is_v4_uuid(right.id)
                        && right.timeline_start == split_frame && right.source_range == FrameRange {
                        start: Frame(source_split as i64),
                        end: old(self).source_range.end,
                    } && *final(self) == ClipSource {
                        source_range: FrameRange {
                            start: old(self).source_range.start,
                            end: Frame(source_split as i64),
                        },
                        ..*old(self)
                    },
                    Err(e) => *final(self) == *old(self) && if !(start <= split_frame.0 < end) {
                        invalid_operation(
                            e,
                            "Split frame "@ + signed_decimal(split_frame.0 as int)
                                + " not within clip range "@ + frame_range_debug(start as int, end),
                        )
                    } else {
                        source_split > old(self).source_range.end.0 && e
                            == DomainError::InvalidFrameRange {
                            start: source_split as i64,
                            end: old(self).source_range.end.0,
                        }
                    },
                }
            }),
    {
        let range = FrameRange::new_unchecked(
            self.timeline_start.0,
            self.timeline_start.0 + effective_duration,
        );
        if !range.contains(split_frame) {
            let mut m = String::new();
            push_str(&mut m, "Split frame ");
            push_signed(&mut m, split_frame.0);
            push_str(&mut m, " not within clip range ");
            push_str(&mut m, "FrameRange { start: Frame(");
            push_signed(&mut m, range.start.0);
            push_str(&mut m, "), end: Frame(");
            push_signed(&mut m, range.end.0);
            push_str(&mut m, ") }");
            assert(m@ =~= "Split frame "@ + signed_decimal(split_frame.0 as int)
                + " not within clip range "@ + frame_range_debug(
                range.start.0 as int,
                range.end.0 as int,
            ));
            return Err(DomainError::InvalidOperation(m));
        }
        let offset_in_clip = split_frame.0 - self.timeline_start.0;
        let source_split = Frame(self.source_range.start.0 + offset_in_clip);
        let right_range = match FrameRange::new(source_split, self.source_range.end) {
            Ok(range) => range,
            Err(e) => {
                return Err(e);
            },
        };
        let left_range = match FrameRange::new(self.source_range.start, source_split) {
            Ok(range) => range,
            Err(e) => {
                return Err(e);
            },
        };
        let right = ClipSource {
            id: new_v4_uuid(),
            timeline_start: split_frame,
            source_range: right_range,
        };
        self.source_range = left_range;
        Ok(right)
    }
}

/// The clips whose identifier is not `id`, in order.
pub open spec fn without(s: Seq<ClipPlacement>, id: u128) -> Seq<ClipPlacement>
    decreases s.len(),
{
    if s.len() == 0 {
        s
    } else {
        let rest = without(s.drop_last(), id);
        if s.last().id == id {
            rest
        } else {
            rest.push(s.last())
        }
    }
}

/// The clips on `track`, in order.
pub open spec fn on_track(s: Seq<ClipPlacement>, track: usize) -> Seq<ClipPlacement>
    decreases s.len(),
{
    if s.len() == 0 {
        s
    } else {
        let rest = on_track(s.drop_last(), track);
        if s.last().track == track {
            rest.push(s.last())
        } else {
            rest
        }
    }
}

/// The clips that cover `frame`, in order.
pub open spec fn at_frame(s: Seq<ClipPlacement>, frame: int) -> Seq<ClipPlacement>
    decreases s.len(),
{
    if s.len() == 0 {
        s
    } else {
        let rest = at_frame(s.drop_last(), frame);
        let c = s.last();
        if c.timeline_start <= frame && frame < clip_end(c) {
            rest.push(c)
        } else {
            rest
        }
    }
}

/// The latest clip end, or 0 with no clips.
pub open spec fn latest_end(s: Seq<ClipPlacement>) -> int
    decreases s.len(),
{
    if s.len() == 0 {
        0
    } else if s.len() == 1 {
        clip_end(s[0])
    } else {
        let rest = latest_end(s.drop_last());
        if clip_end(s.last()) > rest {
            clip_end(s.last())
        } else {
            rest
        }
    }
}

/// The position of the first clip with identifier `id`, if any.
pub open spec fn first_with_id(s: Seq<ClipPlacement>, id: u128) -> Option<int> {
    if exists|i: int| 0 <= i < s.len() && s[i].id == id {
        Some(
            choose|i: int|
                0 <= i < s.len() && s[i].id == id && forall|j: int|
                    0 <= j < i ==> s[j].id != id,
        )
    } else {
        None
    }
}

/// `first_with_id` is the smallest position holding the identifier.
pub proof fn lemma_first_with_id(s: Seq<ClipPlacement>, id: u128)
    ensures
        (match first_with_id(s, id) {
            Some(k) => 0 <= k < s.len() && s[k].id == id && forall|j: int|
                0 <= j < k ==> s[j].id != id,
            None => forall|j: int| 0 <= j < s.len() ==> s[j].id != id,
        }),
{
    if exists|i: int| 0 <= i < s.len() && s[i].id == id {
        let i = choose|i: int| 0 <= i < s.len() && s[i].id == id;
        lemma_least_position(s, id, i + 1);
    }
}

proof fn lemma_least_position(s: Seq<ClipPlacement>, id: u128, n: int)
    requires
        0 <= n <= s.len(),
        exists|i: int| 0 <= i < n && s[i].id == id,
    ensures
        exists|i: int|
            0 <= i < s.len() && s[i].id == id && forall|j: int| 0 <= j < i ==> s[j].id != id,
    decreases n,
{
    if exists|i: int| 0 <= i < n - 1 && s[i].id == id {
        lemma_least_position(s, id, n - 1);
    } else {
        let k = n - 1;
        assert(s[k].id == id);
        assert(forall|j: int| 0 <= j < k ==> s[j].id != id);
    }
}

/// No two clips with different identifiers share a frame on a track.
pub open spec fn no_overlaps(s: Seq<ClipPlacement>) -> bool {
    forall|i: int, j: int|
        0 <= i < s.len() && 0 <= j < s.len() && s[i].id != s[j].id ==> !clips_overlap(
            #[trigger] s[i],
            #[trigger] s[j],
        )
}

/// The clip moved back by `by` frames when it is on `track` and starts at
/// or after `from`.
pub open spec fn ripple_one(c: ClipPlacement, track: usize, from: int, by: int) -> ClipPlacement {
    if c.track == track && c.timeline_start >= from {
        ClipPlacement { timeline_start: (c.timeline_start - by) as i64, ..c }
    } else {
        c
    }
}

/// Every clip moved back as a ripple delete moves it.
pub open spec fn rippled(s: Seq<ClipPlacement>, track: usize, from: int, by: int) -> Seq<
    ClipPlacement,
> {
    s.map_values(|c: ClipPlacement| ripple_one(c, track, from, by))
}

/// A ripple delete of the first clip with identifier `id` moves every
/// later clip on its track to frames that are representable.
pub open spec fn ripple_fits(s: Seq<ClipPlacement>, id: u128) -> bool {
    match first_with_id(s, id) {
        None => true,
        Some(k) => forall|i: int|
            0 <= i < s.len() && (#[trigger] s[i]).track == s[k].track && s[i].timeline_start
                >= clip_end(s[k]) ==> {
                &&& i64::MIN <= s[i].timeline_start - s[k].effective_duration <= i64::MAX
                &&& i64::MIN <= clip_end(s[i]) - s[k].effective_duration <= i64::MAX
            },
    }
}

/// Every clip left by `without` is a clip of `s`, with
/// another identifier.
pub proof fn lemma_without_members(s: Seq<ClipPlacement>, id: u128)
    ensures
        forall|j: int|
            0 <= j < without(s, id).len() ==> (#[trigger] without(s, id)[j]).id != id && exists|
                i: int,
            |
                0 <= i < s.len() && s[i] == without(s, id)[j],
    decreases s.len(),
{
    if s.len() > 0 {
        let p = s.drop_last();
        lemma_without_members(p, id);
        assert forall|j: int| 0 <= j < without(s, id).len() implies (#[trigger] without(
            s,
            id,
        )[j]).id != id && exists|i: int| 0 <= i < s.len() && s[i] == without(s, id)[j] by {
            if j < without(p, id).len() {
                let i = choose|i: int| 0 <= i < p.len() && p[i] == without(p, id)[j];
                assert(s[i] == p[i]);
            } else {
                assert(s[s.len() - 1] == without(s, id)[j]);
            }
        }
    }
}

/// The error for a clip identifier that is not on the timeline.
pub open spec fn clip_not_found(id: u128) -> DomainError {
    DomainError::NotFound { entity_type: "Clip", id }
}

/// A clip other than the one at `k` shares a frame with `u` on its track.
pub open spec fn overlaps_other(s: Seq<ClipPlacement>, k: int, u: ClipPlacement) -> bool {
    exists|i: int| 0 <= i < s.len() && i != k && clips_overlap(u, #[trigger] s[i])
}

/// What `update_clip` returns when the update of the clip at `k` gave
/// `res`.
pub open spec fn update_outcome(
    before: TimelineClips,
    k: int,
    res: Result<ClipPlacement, DomainError>,
    r: Result<TimelineClips, DomainError>,
) -> bool {
    match res {
        Err(e) => r == Err::<TimelineClips, DomainError>(e),
        Ok(u) => if overlaps_other(before.spec_clips(), k, u) {
            r == Err::<TimelineClips, DomainError>(
                DomainError::ClipOverlap { frame: u.timeline_start, track: u.track },
            )
        } else {
            r matches Ok(t) && t.spec_clips() == before.spec_clips().update(k, u)
                && t.spec_track_count() == before.spec_track_count()
        },
    }
}

/// Some clip other than the one at `k` shares a frame with `u` on its track.
fn overlaps_other_at(clips: &Vec<ClipPlacement>, k: usize, u: &ClipPlacement) -> (r: bool)
    requires
        end_fits(*u),
        forall|m: int| 0 <= m < clips@.len() ==> end_fits(#[trigger] clips@[m]),
    ensures
        r == overlaps_other(clips@, k as int, *u),
{
    let mut i: usize = 0;
    while i < clips.len()
        invariant
            i <= clips@.len(),
            end_fits(*u),
            forall|m: int| 0 <= m < clips@.len() ==> end_fits(#[trigger] clips@[m]),
            forall|m: int| 0 <= m < i && m != k ==> !clips_overlap(*u, #[trigger] clips@[m]),
        decreases clips.len() - i,
    {
        if i != k && u.overlaps(&clips[i]) {
            return true;
        }
        i = i + 1;
    }
    false
}

/// The clips of a timeline and its number of tracks.
pub struct TimelineClips {
    track_count: usize,
    clips: Vec<ClipPlacement>,
}

impl Clone for TimelineClips {
    fn clone(&self) -> (r: TimelineClips)
        ensures
            r.spec_track_count() == self.spec_track_count(),
            r.spec_clips() == self.spec_clips(),
    {
        proof {
            use_type_invariant(self);
        }
        let mut clips: Vec<ClipPlacement> = Vec::new();
        let mut i: usize = 0;
        while i < self.clips.len()
            invariant
                i <= self.clips@.len(),
                clips@ == self.clips@.take(i as int),
            decreases self.clips.len() - i,
        {
            clips.push(self.clips[i]);
            i = i + 1;
            assert(clips@ =~= self.clips@.take(i as int));
        }
        assert(self.clips@.take(self.clips@.len() as int) =~= self.clips@);
        TimelineClips { track_count: self.track_count, clips }
    }
}

impl TimelineClips {
    #[verifier::type_invariant]
    spec fn ends_fit(&self) -> bool {
        forall|i: int| 0 <= i < self.clips@.len() ==> end_fits(#[trigger] self.clips@[i])
    }

    /// Number of tracks (video and audio together).
    pub closed spec fn spec_track_count(&self) -> nat {
        self.track_count as nat
    }

    /// The clips, in insertion order.
    pub closed spec fn spec_clips(&self) -> Seq<ClipPlacement> {
        self.clips@
    }

    /// A new timeline: one video and one audio track, no clips.
    pub fn new() -> (r: TimelineClips)
        ensures
            r.spec_track_count() == 2,
            r.spec_clips() == Seq::<ClipPlacement>::empty(),
    {
        TimelineClips { track_count: 2, clips: Vec::new() }
    }

    pub fn track_count(&self) -> (r: usize)
        ensures
            r == self.spec_track_count(),
    {
        self.track_count
    }

    /// The clips, in insertion order; each ends at a representable frame.
    pub fn clips(&self) -> (r: &Vec<ClipPlacement>)
        ensures
            r@ == self.spec_clips(),
            forall|i: int| 0 <= i < r@.len() ==> end_fits(#[trigger] r@[i]),
    {
        proof {
            use_type_invariant(self);
        }
        &self.clips
    }

    /// The layout with one more (video or audio) track.
    pub fn add_track(self) -> (r: TimelineClips)
        requires
            self.spec_track_count() < usize::MAX,
        ensures
            r.spec_track_count() == self.spec_track_count() + 1,
            r.spec_clips() == self.spec_clips(),
    {
        proof {
            use_type_invariant(&self);
        }
        TimelineClips { track_count: self.track_count + 1, clips: self.clips }
    }

    /// Adds a clip. Refused when its track does not exist, or when it shares
    /// a frame with a clip on its track that has another identifier.
    pub fn insert_clip(self, clip: ClipPlacement) -> (r: Result<TimelineClips, DomainError>)
        requires
            end_fits(clip),
        ensures
            (match r {
                Ok(t) => clip.track < self.spec_track_count() && (forall|i: int|
                    0 <= i < self.spec_clips().len() && (#[trigger] self.spec_clips()[i]).id
                        != clip.id ==> !clips_overlap(clip, self.spec_clips()[i]))
                    && t.spec_clips() == self.spec_clips().push(clip) && t.spec_track_count()
                    == self.spec_track_count(),
                Err(e) => if clip.track >= self.spec_track_count() {
                    e == DomainError::TrackOutOfBounds {
                        index: clip.track,
                        max: if self.spec_track_count() > 0 {
                            (self.spec_track_count() - 1) as usize
                        } else {
                            0
                        },
                    }
                } else {
                    (exists|i: int|
                        0 <= i < self.spec_clips().len() && (#[trigger] self.spec_clips()[i]).id
                            != clip.id && clips_overlap(clip, self.spec_clips()[i])) && e
                        == DomainError::ClipOverlap { frame: clip.timeline_start, track: clip.track }
                },
            }),
    {
        proof {
            use_type_invariant(&self);
        }
        if clip.track >= self.track_count {
            let max = if self.track_count > 0 {
                self.track_count - 1
            } else {
                0
            };
            return Err(DomainError::TrackOutOfBounds { index: clip.track, max });
        }
        let mut i: usize = 0;
        while i < self.clips.len()
            invariant
                i <= self.clips@.len(),
                end_fits(clip),
                clip.track < self.track_count,
                forall|k: int| 0 <= k < self.clips@.len() ==> end_fits(#[trigger] self.clips@[k]),
                forall|k: int|
                    0 <= k < i && (#[trigger] self.clips@[k]).id != clip.id ==> !clips_overlap(
                        clip,
                        self.clips@[k],
                    ),
            decreases self.clips.len() - i,
        {
            let existing = self.clips[i];
            if existing.id != clip.id && clip.overlaps(&existing) {
                assert(self.spec_clips()[i as int] == existing);
                return Err(DomainError::ClipOverlap { frame: clip.timeline_start, track: clip.track });
            }
            i = i + 1;
        }
        let mut clips = self.clips;
        clips.push(clip);
        TimelineClips { track_count: self.track_count, clips }.into_ok()
    }

    fn into_ok(self) -> (r: Result<TimelineClips, DomainError>)
        ensures
            r == Ok::<TimelineClips, DomainError>(self),
    {
        Ok(self)
    }

    /// Removes every clip with the identifier; refused when there is none.
    pub fn remove_clip(self, id: u128) -> (r: Result<TimelineClips, DomainError>)
        ensures
            (match r {
                Ok(t) => (exists|i: int|
                    0 <= i < self.spec_clips().len() && (#[trigger] self.spec_clips()[i]).id
                        == id) && t.spec_clips() == without(self.spec_clips(), id)
                    && t.spec_track_count() == self.spec_track_count(),
                Err(e) => (forall|i: int|
                    0 <= i < self.spec_clips().len() ==> (#[trigger] self.spec_clips()[i]).id
                        != id) && e == clip_not_found(id),
            }),
    {
        proof {
            use_type_invariant(&self);
        }
        let mut kept: Vec<ClipPlacement> = Vec::new();
        let mut found = false;
        let mut i: usize = 0;
        while i < self.clips.len()
            invariant
                i <= self.clips@.len(),
                kept@ == without(self.clips@.take(i as int), id),
                found == (exists|k: int| 0 <= k < i && (#[trigger] self.clips@[k]).id == id),
                forall|k: int| 0 <= k < kept@.len() ==> end_fits(#[trigger] kept@[k]),
                forall|k: int| 0 <= k < self.clips@.len() ==> end_fits(#[trigger] self.clips@[k]),
            decreases self.clips.len() - i,
        {
            let c = self.clips[i];
            proof {
                assert(self.clips@.take(i + 1).drop_last() =~= self.clips@.take(i as int));
            }
            if c.id == id {
                found = true;
            } else {
                kept.push(c);
            }
            i = i + 1;
        }
        proof {
            assert(self.clips@.take(self.clips@.len() as int) =~= self.clips@);
            if found {
                let k = choose|k: int| 0 <= k < self.clips@.len() && (#[trigger] self.clips@[k]).id == id;
                assert(self.spec_clips()[k].id == id);
            } else {
                assert forall|k: int| 0 <= k < self.spec_clips().len() implies (
                #[trigger] self.spec_clips()[k]).id != id by {
                    assert(self.clips@[k].id != id);
                }
            }
        }
        if !found {
            return Err(DomainError::NotFound { entity_type: "Clip", id });
        }
        Ok(TimelineClips { track_count: self.track_count, clips: kept })
    }

    /// Replaces the first clip with the identifier by what `f` makes of it.
    /// Refused when there is no such clip, when `f` refuses, or when the
    /// new clip shares a frame with any other clip on its track.
    pub fn update_clip<F>(self, id: u128, f: F) -> (r: Result<TimelineClips, DomainError>) where
        F: FnOnce(ClipPlacement) -> Result<ClipPlacement, DomainError>,

        requires
            forall|c: ClipPlacement| c.id == id ==> f.requires((c,)),
            forall|c: ClipPlacement, res: Result<ClipPlacement, DomainError>|
                f.ensures((c,), res) ==> (res matches Ok(u) ==> end_fits(u)),
        ensures
            (match first_with_id(self.spec_clips(), id) {
                None => r == Err::<TimelineClips, DomainError>(clip_not_found(id)),
                Some(k) => exists|res: Result<ClipPlacement, DomainError>|
                    #![trigger f.ensures((self.spec_clips()[k],), res)]
                    f.ensures((self.spec_clips()[k],), res) && update_outcome(
                        self,
                        k,
                        res,
                        r,
                    ),
            }),
    {
        proof {
            use_type_invariant(&self);
        }
        let found = self.get_clip(id);
        let clip = match found {
            None => {
                return Err(DomainError::NotFound { entity_type: "Clip", id });
            },
            Some(c) => c,
        };
        let ghost k: int = first_with_id(self.spec_clips(), id)->0;
        let mut idx: usize = 0;
        while self.clips[idx].id != id
            invariant
                0 <= k < self.clips.len(),
                self.clips@[k].id == id,
                forall|j: int| 0 <= j < k ==> self.clips@[j].id != id,
                idx <= k,
            decreases k - idx,
        {
            idx = idx + 1;
        }
        let res = f(clip);
        assert(clip == self.spec_clips()[k]);
        match res {
            Err(e) => Err(e),
            Ok(u) => {
                if overlaps_other_at(&self.clips, idx, &u) {
                    return Err(DomainError::ClipOverlap { frame: u.timeline_start, track: u.track });
                }
                let mut clips = self.clips;
                clips.set(idx, u);
                TimelineClips { track_count: self.track_count, clips }.into_ok()
            },
        }
    }

    /// Removes the first clip with the identifier (and any other clip with
    /// it), then moves every clip of its track that started at or after its
    /// end back by its length. Refused when there is no such clip.
    pub fn ripple_delete(self, id: u128) -> (r: Result<TimelineClips, DomainError>)
        requires
            ripple_fits(self.spec_clips(), id),
        ensures
            (match first_with_id(self.spec_clips(), id) {
                None => r == Err::<TimelineClips, DomainError>(clip_not_found(id)),
                Some(k) => r matches Ok(t) && t.spec_clips() == rippled(
                    without(self.spec_clips(), id),
                    self.spec_clips()[k].track,
                    clip_end(self.spec_clips()[k]),
                    self.spec_clips()[k].effective_duration as int,
                ) && t.spec_track_count() == self.spec_track_count(),
            }),
    {
        proof {
            use_type_invariant(&self);
        }
        let ghost all = self.clips@;
        let found = self.get_clip(id);
        let d = match found {
            None => {
                return Err(DomainError::NotFound { entity_type: "Clip", id });
            },
            Some(c) => c,
        };
        let ghost k: int = first_with_id(all, id)->0;
        let track = d.track;
        let duration = d.effective_duration;
        let end = d.timeline_end().0;
        let removed = match self.remove_clip(id) {
            Ok(t) => t,
            Err(e) => {
                return Err(e);
            },
        };
        proof {
            use_type_invariant(&removed);
            lemma_without_members(all, id);
        }
        let ghost kept = removed.clips@;
        let mut out: Vec<ClipPlacement> = Vec::new();
        let mut i: usize = 0;
        while i < removed.clips.len()
            invariant
                i <= kept.len(),
                kept == removed.clips@,
                kept == without(all, id),
                0 <= k < all.len(),
                d == all[k],
                track == d.track,
                duration == d.effective_duration,
                end == clip_end(d),
                ripple_fits(all, id),
                first_with_id(all, id) == Some(k),
                forall|j: int|
                    0 <= j < kept.len() ==> (#[trigger] kept[j]).id != id && exists|m: int|
                        0 <= m < all.len() && all[m] == kept[j],
                forall|m: int| 0 <= m < all.len() ==> end_fits(#[trigger] all[m]),
                out@.len() == i,
                forall|j: int|
                    0 <= j < i ==> #[trigger] out@[j] == ripple_one(
                        kept[j],
                        track,
                        end as int,
                        duration as int,
                    ),
                forall|j: int| 0 <= j < i ==> end_fits(#[trigger] out@[j]),
            decreases kept.len() - i,
        {
            let c = removed.clips[i];
            let ghost m = choose|m: int| 0 <= m < all.len() && all[m] == kept[i as int];
            assert(all[m] == c);
            assert(end_fits(all[m]));
            if c.track == track && c.timeline_start >= end {
                out.push(ClipPlacement { timeline_start: c.timeline_start - duration, ..c });
            } else {
                out.push(c);
            }
            i = i + 1;
        }
        proof {
            assert(out@ =~= rippled(kept, track, end as int, duration as int));
        }
        TimelineClips { track_count: removed.track_count, clips: out }.into_ok()
    }

    /// The first clip with the identifier, if any.
    pub fn get_clip(&self, id: u128) -> (r: Option<ClipPlacement>)
        ensures
            (match r {
                Some(c) => first_with_id(self.spec_clips(), id) matches Some(k) && c
                    == self.spec_clips()[k],
                None => first_with_id(self.spec_clips(), id) is None,
            }),
            (match first_with_id(self.spec_clips(), id) {
                Some(k) => 0 <= k < self.spec_clips().len() && self.spec_clips()[k].id == id
                    && forall|j: int| 0 <= j < k ==> self.spec_clips()[j].id != id,
                None => forall|j: int|
                    0 <= j < self.spec_clips().len() ==> self.spec_clips()[j].id != id,
            }),
    {
        let mut i: usize = 0;
        while i < self.clips.len()
            invariant
                i <= self.clips@.len(),
                forall|j: int| 0 <= j < i ==> self.clips@[j].id != id,
            decreases self.clips.len() - i,
        {
            if self.clips[i].id == id {
                proof {
                    let k = i as int;
                    assert(0 <= k < self.clips@.len() && self.clips@[k].id == id && forall|j: int|
                        0 <= j < k ==> self.clips@[j].id != id);
                    let c = choose|c: int|
                        0 <= c < self.clips@.len() && self.clips@[c].id == id && forall|j: int|
                            0 <= j < c ==> self.clips@[j].id != id;
                    assert(c == k) by {
                        if c < k {
                            assert(self.clips@[c].id != id);
                        } else if c > k {
                            assert(self.clips@[k].id != id);
                        }
                    }
                }
                return Some(self.clips[i]);
            }
            i = i + 1;
        }
        None
    }

    /// The first frame after the last clip; frame 0 with no clips.
    pub fn duration(&self) -> (r: Frame)
        ensures
            r.0 == latest_end(self.spec_clips()),
            forall|i: int|
                0 <= i < self.spec_clips().len() ==> clip_end(#[trigger] self.spec_clips()[i]) <= r.0,
            self.spec_clips().len() > 0 ==> exists|i: int|
                0 <= i < self.spec_clips().len() && r.0 == clip_end(#[trigger] self.spec_clips()[i]),
            self.spec_clips().len() == 0 ==> r.0 == 0,
    {
        proof {
            use_type_invariant(self);
            law_duration_is_latest_end(self.spec_clips());
        }
        let mut best: i64 = 0;
        let mut i: usize = 0;
        while i < self.clips.len()
            invariant
                i <= self.clips@.len(),
                forall|k: int| 0 <= k < self.clips@.len() ==> end_fits(#[trigger] self.clips@[k]),
                best == latest_end(self.clips@.take(i as int)),
            decreases self.clips.len() - i,
        {
            let e = self.clips[i].timeline_end().0;
            proof {
                assert(self.clips@.take(i + 1).drop_last() =~= self.clips@.take(i as int));
                assert(self.clips@.take(i + 1).last() == self.clips@[i as int]);
            }
            if i == 0 || e > best {
                best = e;
            }
            i = i + 1;
        }
        proof {
            assert(self.clips@.take(self.clips@.len() as int) =~= self.clips@);
        }
        Frame(best)
    }

    /// The clips on a track, in order.
    pub fn clips_on_track(&self, track: usize) -> (r: Vec<ClipPlacement>)
        ensures
            r@ == on_track(self.spec_clips(), track),
    {
        let mut out: Vec<ClipPlacement> = Vec::new();
        let mut i: usize = 0;
        while i < self.clips.len()
            invariant
                i <= self.clips@.len(),
                out@ == on_track(self.clips@.take(i as int), track),
            decreases self.clips.len() - i,
        {
            proof {
                assert(self.clips@.take(i + 1).drop_last() =~= self.clips@.take(i as int));
            }
            if self.clips[i].track == track {
                out.push(self.clips[i]);
            }
            i = i + 1;
        }
        proof {
            assert(self.clips@.take(self.clips@.len() as int) =~= self.clips@);
        }
        out
    }

    /// The clips that cover a frame, in order.
    pub fn clips_at_frame(&self, frame: Frame) -> (r: Vec<ClipPlacement>)
        ensures
            r@ == at_frame(self.spec_clips(), frame.0 as int),
    {
        proof {
            use_type_invariant(self);
        }
        let mut out: Vec<ClipPlacement> = Vec::new();
        let mut i: usize = 0;
        while i < self.clips.len()
            invariant
                i <= self.clips@.len(),
                forall|k: int| 0 <= k < self.clips@.len() ==> end_fits(#[trigger] self.clips@[k]),
                out@ == at_frame(self.clips@.take(i as int), frame.0 as int),
            decreases self.clips.len() - i,
        {
            proof {
                assert(self.clips@.take(i + 1).drop_last() =~= self.clips@.take(i as int));
            }
            let c = self.clips[i];
            if c.timeline_range().contains(frame) {
                out.push(c);
            }
            i = i + 1;
        }
        proof {
            assert(self.clips@.take(self.clips@.len() as int) =~= self.clips@);
        }
        out
    }
}

/// Inserting a clip that `insert_clip` accepts keeps the clips of different
/// identifiers apart.
pub proof fn law_insert_keeps_clips_apart(s: Seq<ClipPlacement>, clip: ClipPlacement)
    requires
        no_overlaps(s),
        forall|i: int| 0 <= i < s.len() && (#[trigger] s[i]).id != clip.id ==> !clips_overlap(
            clip,
            s[i],
        ),
    ensures
        no_overlaps(s.push(clip)),
{
    let t = s.push(clip);
    assert forall|i: int, j: int|
        0 <= i < t.len() && 0 <= j < t.len() && t[i].id != t[j].id implies !clips_overlap(
        #[trigger] t[i],
        #[trigger] t[j],
    ) by {
        if i < s.len() && j < s.len() {
            assert(t[i] == s[i] && t[j] == s[j]);
        } else if i < s.len() {
            assert(t[i] == s[i] && t[j] == clip);
            assert(!clips_overlap(clip, s[i]));
        } else if j < s.len() {
            assert(t[j] == s[j] && t[i] == clip);
            assert(!clips_overlap(clip, s[j]));
        }
    }
}

/// Removing the clips of an identifier keeps the rest apart.
pub proof fn law_remove_keeps_clips_apart(s: Seq<ClipPlacement>, id: u128)
    requires
        no_overlaps(s),
    ensures
        no_overlaps(without(s, id)),
{
    let w = without(s, id);
    lemma_without_members(s, id);
    assert forall|i: int, j: int|
        0 <= i < w.len() && 0 <= j < w.len() && w[i].id != w[j].id implies !clips_overlap(
        #[trigger] w[i],
        #[trigger] w[j],
    ) by {
        let a = choose|a: int| 0 <= a < s.len() && s[a] == w[i];
        let b = choose|b: int| 0 <= b < s.len() && s[b] == w[j];
        assert(!clips_overlap(s[a], s[b]));
    }
}

/// Replacing the clip at `k` by one that `update_clip` accepts keeps the
/// clips apart.
pub proof fn law_update_keeps_clips_apart(s: Seq<ClipPlacement>, k: int, u: ClipPlacement)
    requires
        no_overlaps(s),
        0 <= k < s.len(),
        !overlaps_other(s, k, u),
    ensures
        no_overlaps(s.update(k, u)),
{
    let t = s.update(k, u);
    assert forall|i: int, j: int|
        0 <= i < t.len() && 0 <= j < t.len() && t[i].id != t[j].id implies !clips_overlap(
        #[trigger] t[i],
        #[trigger] t[j],
    ) by {
        if i != k && j != k {
            assert(t[i] == s[i] && t[j] == s[j]);
        } else if i == k {
            assert(!clips_overlap(u, s[j]));
        } else {
            assert(!clips_overlap(u, s[i]));
        }
    }
}

/// A ripple delete keeps the clips apart: the clips it moves back close the
/// gap left by the deleted clip and stay behind the clips before it.
pub proof fn law_ripple_keeps_clips_apart(s: Seq<ClipPlacement>, id: u128)
    requires
        no_overlaps(s),
        ripple_fits(s, id),
        first_with_id(s, id) is Some,
    ensures
        ({
            let k = first_with_id(s, id)->0;
            no_overlaps(
                rippled(
                    without(s, id),
                    s[k].track,
                    clip_end(s[k]),
                    s[k].effective_duration as int,
                ),
            )
        }),
{
    lemma_first_with_id(s, id);
    let k = first_with_id(s, id)->0;
    let d = s[k];
    let w = without(s, id);
    let t = rippled(w, d.track, clip_end(d), d.effective_duration as int);
    lemma_without_members(s, id);
    assert forall|i: int, j: int|
        0 <= i < t.len() && 0 <= j < t.len() && t[i].id != t[j].id implies !clips_overlap(
        #[trigger] t[i],
        #[trigger] t[j],
    ) by {
        let a = choose|a: int| 0 <= a < s.len() && s[a] == w[i];
        let b = choose|b: int| 0 <= b < s.len() && s[b] == w[j];
        assert(!clips_overlap(s[a], s[b]));
        assert(s[a].id != id && s[b].id != id);
        assert(!clips_overlap(d, s[a]));
        assert(!clips_overlap(d, s[b]));
        assert(t[i] == ripple_one(w[i], d.track, clip_end(d), d.effective_duration as int));
        assert(t[j] == ripple_one(w[j], d.track, clip_end(d), d.effective_duration as int));
    }
}

/// Removing a clip's identifier right after inserting the clip, when no
/// clip had that identifier, gives back the clips as they were.
pub proof fn law_remove_undoes_insert(s: Seq<ClipPlacement>, clip: ClipPlacement)
    requires
        forall|i: int| 0 <= i < s.len() ==> (#[trigger] s[i]).id != clip.id,
    ensures
        without(s.push(clip), clip.id) == s,
{
    assert(s.push(clip).drop_last() =~= s);
    lemma_without_absent(s, clip.id);
}

/// Removing an identifier no clip has changes nothing.
proof fn lemma_without_absent(s: Seq<ClipPlacement>, id: u128)
    requires
        forall|i: int| 0 <= i < s.len() ==> (#[trigger] s[i]).id != id,
    ensures
        without(s, id) == s,
    decreases s.len(),
{
    if s.len() > 0 {
        let p = s.drop_last();
        assert forall|i: int| 0 <= i < p.len() implies (#[trigger] p[i]).id != id by {
            assert(p[i] == s[i]);
        }
        lemma_without_absent(p, id);
        assert(s[s.len() - 1].id != id);
        assert(p.push(s.last()) =~= s);
    }
}

/// A timeline lasts until its latest clip ends: no clip ends after the
/// duration, some clip ends exactly at it, and an empty timeline lasts 0.
pub proof fn law_duration_is_latest_end(s: Seq<ClipPlacement>)
    ensures
        forall|i: int| 0 <= i < s.len() ==> clip_end(#[trigger] s[i]) <= latest_end(s),
        s.len() > 0 ==> exists|i: int| 0 <= i < s.len() && latest_end(s) == clip_end(#[trigger] s[i]),
        s.len() == 0 ==> latest_end(s) == 0,
    decreases s.len(),
{
    if s.len() > 1 {
        let p = s.drop_last();
        law_duration_is_latest_end(p);
        assert forall|i: int| 0 <= i < s.len() implies clip_end(#[trigger] s[i]) <= latest_end(s) by {
            if i < s.len() - 1 {
                assert(s[i] == p[i]);
            }
        }
        let j = choose|j: int| 0 <= j < p.len() && latest_end(p) == clip_end(#[trigger] p[j]);
        assert(s[j] == p[j]);
        if clip_end(s.last()) > latest_end(p) {
            assert(latest_end(s) == clip_end(s[s.len() - 1]));
        } else {
            assert(latest_end(s) == clip_end(s[j]));
        }
    } else if s.len() == 1 {
        assert(latest_end(s) == clip_end(s[0]));
    }
}

proof fn lemma_contains_push(q: Seq<ClipPlacement>, x: ClipPlacement, c: ClipPlacement)
    ensures
        q.push(x).contains(c) <==> (q.contains(c) || c == x),
{
    let t = q.push(x);
    if q.contains(c) {
        let i = choose|i: int| 0 <= i < q.len() && q[i] == c;
        assert(t[i] == c);
    }
    if c == x {
        assert(t[q.len() as int] == c);
    }
    if t.contains(c) {
        let i = choose|i: int| 0 <= i < t.len() && t[i] == c;
        if i < q.len() {
            assert(q[i] == c);
        }
    }
}

/// The clips listed for a track are exactly the clips on that track.
pub proof fn law_on_track_selects(s: Seq<ClipPlacement>, track: usize, c: ClipPlacement)
    ensures
        on_track(s, track).contains(c) <==> (s.contains(c) && c.track == track),
    decreases s.len(),
{
    if s.len() > 0 {
        let p = s.drop_last();
        law_on_track_selects(p, track, c);
        assert(s == p.push(s.last()));
        lemma_contains_push(p, s.last(), c);
        lemma_contains_push(on_track(p, track), s.last(), c);
    }
}

/// The clips listed at a frame are exactly the clips that cover it: they
/// start at or before it and end after it.
pub proof fn law_at_frame_selects(s: Seq<ClipPlacement>, frame: int, c: ClipPlacement)
    ensures
        at_frame(s, frame).contains(c) <==> (s.contains(c) && c.timeline_start <= frame < clip_end(c)),
    decreases s.len(),
{
    if s.len() > 0 {
        let p = s.drop_last();
        law_at_frame_selects(p, frame, c);
        assert(s == p.push(s.last()));
        lemma_contains_push(p, s.last(), c);
        lemma_contains_push(at_frame(p, frame), s.last(), c);
    }
}

} // verus!
