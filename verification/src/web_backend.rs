//! The in-browser backend's own logic: the wall-clock playback of the
//! playhead at a fixed 24 fps, the kind of an uploaded media file by its
//! name, and the file name of a project download.
use crate::asset::AssetType;
use crate::text::{chars_of, ends_with_str, has_suffix, lowercase, push_str, to_lowercase};
use vstd::prelude::*;

verus! {

/// One frame at the browser's fixed 24 fps, in whole microseconds.
pub const PLAYBACK_STEP_US: i64 = 41_666;

/// What one advance of the clock did.
#[derive(Debug, Clone, Copy, PartialEq, Eq, Structural)]
pub struct PlaybackTick {
    /// The playhead moved by at least one frame.
    pub advanced: bool,
    /// Playback reached the end of the timeline and stopped.
    pub stopped: bool,
}

/// The playback clock: whether it runs, the time gathered towards the next
/// frame, and the playhead.
pub struct PlaybackClock {
    playing: bool,
    tick_acc_us: i64,
    playhead_us: i64,
}

/// The clock's state as values: (playing, time gathered, playhead).
pub type ClockState = (bool, int, int);

/// The clock after `dt_us` microseconds of wall time (negative counts as
/// none), on a timeline that ends at `end_us` (when `has_project`). Whole
/// frames are taken from the gathered time; reaching the end of a
/// non-empty timeline parks the playhead there and stops.
pub open spec fn advanced_state(s: ClockState, dt_us: int, end_us: int, has_project: bool) -> (
    ClockState,
    PlaybackTick,
) {
    let (playing, acc, playhead) = s;
    if !playing {
        (s, PlaybackTick { advanced: false, stopped: false })
    } else {
        let gathered = acc + if dt_us > 0 {
            dt_us
        } else {
            0
        };
        if !has_project {
            ((true, gathered, playhead), PlaybackTick { advanced: false, stopped: false })
        } else {
            let frames = gathered / (PLAYBACK_STEP_US as int);
            let moved = playhead + frames * PLAYBACK_STEP_US;
            let rest = gathered % (PLAYBACK_STEP_US as int);
            if end_us > 0 && moved >= end_us {
                ((false, 0, end_us), PlaybackTick { advanced: frames > 0, stopped: true })
            } else {
                ((true, rest, moved), PlaybackTick { advanced: frames > 0, stopped: false })
            }
        }
    }
}

impl PlaybackClock {
    #[verifier::type_invariant]
    spec fn gathered_time_not_negative(&self) -> bool {
        self.tick_acc_us >= 0
    }

    /// The clock as values.
    pub closed spec fn state(&self) -> ClockState {
        (self.playing, self.tick_acc_us as int, self.playhead_us as int)
    }

    /// A stopped clock at frame 0.
    pub fn new() -> (r: PlaybackClock)
        ensures
            r.state() == (false, 0int, 0int),
    {
        PlaybackClock { playing: false, tick_acc_us: 0, playhead_us: 0 }
    }

    pub fn is_playing(&self) -> (r: bool)
        ensures
            r == self.state().0,
    {
        self.playing
    }

    pub fn playhead_us(&self) -> (r: i64)
        ensures
            r == self.state().2,
    {
        self.playhead_us
    }

    /// Starts playback; refused with `No project open` when there is none.
    pub fn play(&mut self, has_project: bool) -> (r: Result<(), String>)
        ensures
            (match r {
                Ok(()) => has_project && final(self).state() == (true, old(self).state().1, old(
                    self,
                ).state().2),
                Err(m) => !has_project && m@ == "No project open"@ && final(self).state() == old(
                    self,
                ).state(),
            }),
    {
        if !has_project {
            let mut m = String::new();
            push_str(&mut m, "No project open");
            assert(m@ =~= "No project open"@);
            return Err(m);
        }
        proof {
            use_type_invariant(&*self);
        }
        self.playing = true;
        Ok(())
    }

    /// Pauses playback where it is.
    pub fn pause(&mut self)
        ensures
            final(self).state() == (false, old(self).state().1, old(self).state().2),
    {
        proof {
            use_type_invariant(&*self);
        }
        self.playing = false;
    }

    /// Stops playback and rewinds to frame 0.
    pub fn stop(&mut self)
        ensures
            final(self).state() == (false, 0int, 0int),
    {
        *self = PlaybackClock { playing: false, tick_acc_us: 0, playhead_us: 0 };
    }

    /// Moves the playhead to `timestamp_us`, clamped at 0; returns where it
    /// went.
    pub fn seek(&mut self, timestamp_us: i64) -> (r: i64)
        ensures
            r == if timestamp_us < 0 {
                0
            } else {
                timestamp_us
            },
            final(self).state() == (old(self).state().0, old(self).state().1, r as int),
    {
        proof {
            use_type_invariant(&*self);
        }
        let clamped = if timestamp_us < 0 {
            0
        } else {
            timestamp_us
        };
        self.playhead_us = clamped;
        clamped
    }

    /// Advances the clock by `dt_us` microseconds of wall time.
    pub fn advance(&mut self, dt_us: i64, end_us: i64, has_project: bool) -> (r: PlaybackTick)
        requires
            old(self).state().1 + (if dt_us > 0 {
                dt_us as int
            } else {
                0
            }) <= i64::MAX,
            has_project ==> old(self).state().2 + old(self).state().1 + (if dt_us > 0 {
                dt_us as int
            } else {
                0
            }) <= i64::MAX,
        ensures
            (final(self).state(), r) == advanced_state(
                old(self).state(),
                dt_us as int,
                end_us as int,
                has_project,
            ),
    {
        proof {
            use_type_invariant(&*self);
        }
        if !self.playing {
            return PlaybackTick { advanced: false, stopped: false };
        }
        let dt = if dt_us > 0 {
            dt_us
        } else {
            0
        };
        let gathered = self.tick_acc_us + dt;
        if !has_project {
            self.tick_acc_us = gathered;
            return PlaybackTick { advanced: false, stopped: false };
        }
        let mut acc = gathered;
        let mut playhead = self.playhead_us;
        let mut advanced = false;
        let ghost start = self.playhead_us as int;
        while acc >= PLAYBACK_STEP_US
            invariant
                0 <= acc <= gathered,
                gathered >= 0,
                playhead + acc == start + gathered,
                start + gathered <= i64::MAX,
                (acc as int) % (PLAYBACK_STEP_US as int) == (gathered as int) % (PLAYBACK_STEP_US as int),
                playhead == start + (gathered - acc),
                ((gathered - acc) as int) % (PLAYBACK_STEP_US as int) == 0,
                advanced == (acc < gathered),
            decreases acc,
        {
            acc = acc - PLAYBACK_STEP_US;
            playhead = playhead + PLAYBACK_STEP_US;
            advanced = true;
        }
        proof {
            let q = (gathered as int) / (PLAYBACK_STEP_US as int);
            vstd::arithmetic::div_mod::lemma_fundamental_div_mod(gathered as int, PLAYBACK_STEP_US as int);
            assert(acc == (gathered as int) % (PLAYBACK_STEP_US as int));
            assert(playhead == start + q * PLAYBACK_STEP_US);
            assert(advanced == (q > 0));
        }
        if end_us > 0 && playhead >= end_us {
            *self = PlaybackClock { playing: false, tick_acc_us: 0, playhead_us: end_us };
            PlaybackTick { advanced, stopped: true }
        } else {
            *self = PlaybackClock { playing: true, tick_acc_us: acc, playhead_us: playhead };
            PlaybackTick { advanced, stopped: false }
        }
    }
}

/// A running clock never moves the playhead past the end of a non-empty
/// timeline, and a paused clock does not move at all.
pub proof fn law_playback_stays_within_timeline(
    s: ClockState,
    dt_us: int,
    end_us: int,
    has_project: bool,
)
    requires
        s.1 >= 0,
    ensures
        has_project && end_us > 0 && s.0 ==> advanced_state(
            s,
            dt_us,
            end_us,
            has_project,
        ).0.2 <= end_us,
        !s.0 ==> advanced_state(s, dt_us, end_us, has_project).0 == s,
{
}

/// The name ends with one of the video extensions the browser accepts.
pub open spec fn is_video_name(n: Seq<char>) -> bool {
    has_suffix(n, "mp4"@) || has_suffix(n, "mkv"@) || has_suffix(n, "webm"@) || has_suffix(
        n,
        "mov"@,
    ) || has_suffix(n, "avi"@)
}

/// The name ends with one of the audio extensions the browser accepts.
pub open spec fn is_audio_name(n: Seq<char>) -> bool {
    has_suffix(n, "mp3"@) || has_suffix(n, "flac"@) || has_suffix(n, "wav"@) || has_suffix(
        n,
        "ogg"@,
    ) || has_suffix(n, "m4a"@) || has_suffix(n, "aac"@)
}

/// The name ends with one of the image extensions the browser accepts.
pub open spec fn is_image_name(n: Seq<char>) -> bool {
    has_suffix(n, "png"@) || has_suffix(n, "jpg"@) || has_suffix(n, "jpeg"@) || has_suffix(
        n,
        "webp"@,
    ) || has_suffix(n, "bmp"@)
}

/// The media kind a (lower-cased) file name ends in, if the browser accepts
/// it: video first, then audio, then image.
pub open spec fn kind_of_name(n: Seq<char>) -> Option<AssetType> {
    if is_video_name(n) {
        Some(AssetType::Video)
    } else if is_audio_name(n) {
        Some(AssetType::Audio)
    } else if is_image_name(n) {
        Some(AssetType::Image)
    } else {
        None
    }
}

/// A name ends in its own last letters.
proof fn lemma_ends_in(stem: Seq<char>, e: Seq<char>)
    ensures
        has_suffix(stem + e, e),
{
    let n = stem + e;
    assert(n.subrange(n.len() - e.len(), n.len() as int) =~= e);
}

/// A name does not end in `v` when its `k`-th letter from the end, taken
/// from `e`, is not `v`'s.
proof fn lemma_not_ends_in(stem: Seq<char>, e: Seq<char>, v: Seq<char>, k: int)
    requires
        0 <= k < e.len(),
        k < v.len(),
        e[e.len() - 1 - k] != v[v.len() - 1 - k],
    ensures
        !has_suffix(stem + e, v),
{
    let n = stem + e;
    if has_suffix(n, v) {
        assert(n.subrange(n.len() - v.len(), n.len() as int)[v.len() - 1 - k] == n[n.len() - 1 - k]);
        assert(n[n.len() - 1 - k] == e[e.len() - 1 - k]);
    }
}

/// Any name ending in one of the browser's extensions is of that kind:
/// mp4, mkv, webm, mov and avi are video; mp3, flac, wav, ogg, m4a and aac
/// audio; png, jpg, jpeg, webp and bmp images.
pub proof fn law_extensions_name_kinds(stem: Seq<char>)
    ensures
        kind_of_name(stem + "mp4"@) == Some(AssetType::Video),
        kind_of_name(stem + "mkv"@) == Some(AssetType::Video),
        kind_of_name(stem + "webm"@) == Some(AssetType::Video),
        kind_of_name(stem + "mov"@) == Some(AssetType::Video),
        kind_of_name(stem + "avi"@) == Some(AssetType::Video),
        kind_of_name(stem + "mp3"@) == Some(AssetType::Audio),
        kind_of_name(stem + "flac"@) == Some(AssetType::Audio),
        kind_of_name(stem + "wav"@) == Some(AssetType::Audio),
        kind_of_name(stem + "ogg"@) == Some(AssetType::Audio),
        kind_of_name(stem + "m4a"@) == Some(AssetType::Audio),
        kind_of_name(stem + "aac"@) == Some(AssetType::Audio),
        kind_of_name(stem + "png"@) == Some(AssetType::Image),
        kind_of_name(stem + "jpg"@) == Some(AssetType::Image),
        kind_of_name(stem + "jpeg"@) == Some(AssetType::Image),
        kind_of_name(stem + "webp"@) == Some(AssetType::Image),
        kind_of_name(stem + "bmp"@) == Some(AssetType::Image),
{
    assert(kind_of_name(stem + "mp4"@) == Some(AssetType::Video)) by {
        reveal_strlit("mp4");
        lemma_ends_in(stem, "mp4"@);
    }
    assert(kind_of_name(stem + "mkv"@) == Some(AssetType::Video)) by {
        reveal_strlit("mkv");
        lemma_ends_in(stem, "mkv"@);
    }
    assert(kind_of_name(stem + "webm"@) == Some(AssetType::Video)) by {
        reveal_strlit("webm");
        lemma_ends_in(stem, "webm"@);
    }
    assert(kind_of_name(stem + "mov"@) == Some(AssetType::Video)) by {
        reveal_strlit("mov");
        lemma_ends_in(stem, "mov"@);
    }
    assert(kind_of_name(stem + "avi"@) == Some(AssetType::Video)) by {
        reveal_strlit("avi");
        lemma_ends_in(stem, "avi"@);
    }
    assert(kind_of_name(stem + "mp3"@) == Some(AssetType::Audio)) by {
        reveal_strlit("mp4");
        reveal_strlit("mkv");
        reveal_strlit("webm");
        reveal_strlit("mov");
        reveal_strlit("avi");
        reveal_strlit("mp3");
        lemma_ends_in(stem, "mp3"@);
        lemma_not_ends_in(stem, "mp3"@, "mp4"@, 0);
        lemma_not_ends_in(stem, "mp3"@, "mkv"@, 0);
        lemma_not_ends_in(stem, "mp3"@, "webm"@, 0);
        lemma_not_ends_in(stem, "mp3"@, "mov"@, 0);
        lemma_not_ends_in(stem, "mp3"@, "avi"@, 0);
    }
    assert(kind_of_name(stem + "flac"@) == Some(AssetType::Audio)) by {
        reveal_strlit("mp4");
        reveal_strlit("mkv");
        reveal_strlit("webm");
        reveal_strlit("mov");
        reveal_strlit("avi");
        reveal_strlit("flac");
        lemma_ends_in(stem, "flac"@);
        lemma_not_ends_in(stem, "flac"@, "mp4"@, 0);
        lemma_not_ends_in(stem, "flac"@, "mkv"@, 0);
        lemma_not_ends_in(stem, "flac"@, "webm"@, 0);
        lemma_not_ends_in(stem, "flac"@, "mov"@, 0);
        lemma_not_ends_in(stem, "flac"@, "avi"@, 0);
    }
    assert(kind_of_name(stem + "wav"@) == Some(AssetType::Audio)) by {
        reveal_strlit("mp4");
        reveal_strlit("mkv");
        reveal_strlit("webm");
        reveal_strlit("mov");
        reveal_strlit("avi");
        reveal_strlit("wav");
        lemma_ends_in(stem, "wav"@);
        lemma_not_ends_in(stem, "wav"@, "mp4"@, 0);
        lemma_not_ends_in(stem, "wav"@, "mkv"@, 1);
        lemma_not_ends_in(stem, "wav"@, "webm"@, 0);
        lemma_not_ends_in(stem, "wav"@, "mov"@, 1);
        lemma_not_ends_in(stem, "wav"@, "avi"@, 0);
    }
    assert(kind_of_name(stem + "ogg"@) == Some(AssetType::Audio)) by {
        reveal_strlit("mp4");
        reveal_strlit("mkv");
        reveal_strlit("webm");
        reveal_strlit("mov");
        reveal_strlit("avi");
        reveal_strlit("ogg");
        lemma_ends_in(stem, "ogg"@);
        lemma_not_ends_in(stem, "ogg"@, "mp4"@, 0);
        lemma_not_ends_in(stem, "ogg"@, "mkv"@, 0);
        lemma_not_ends_in(stem, "ogg"@, "webm"@, 0);
        lemma_not_ends_in(stem, "ogg"@, "mov"@, 0);
        lemma_not_ends_in(stem, "ogg"@, "avi"@, 0);
    }
    assert(kind_of_name(stem + "m4a"@) == Some(AssetType::Audio)) by {
        reveal_strlit("mp4");
        reveal_strlit("mkv");
        reveal_strlit("webm");
        reveal_strlit("mov");
        reveal_strlit("avi");
        reveal_strlit("m4a");
        lemma_ends_in(stem, "m4a"@);
        lemma_not_ends_in(stem, "m4a"@, "mp4"@, 0);
        lemma_not_ends_in(stem, "m4a"@, "mkv"@, 0);
        lemma_not_ends_in(stem, "m4a"@, "webm"@, 0);
        lemma_not_ends_in(stem, "m4a"@, "mov"@, 0);
        lemma_not_ends_in(stem, "m4a"@, "avi"@, 0);
    }
    assert(kind_of_name(stem + "aac"@) == Some(AssetType::Audio)) by {
        reveal_strlit("mp4");
        reveal_strlit("mkv");
        reveal_strlit("webm");
        reveal_strlit("mov");
        reveal_strlit("avi");
        reveal_strlit("aac");
        lemma_ends_in(stem, "aac"@);
        lemma_not_ends_in(stem, "aac"@, "mp4"@, 0);
        lemma_not_ends_in(stem, "aac"@, "mkv"@, 0);
        lemma_not_ends_in(stem, "aac"@, "webm"@, 0);
        lemma_not_ends_in(stem, "aac"@, "mov"@, 0);
        lemma_not_ends_in(stem, "aac"@, "avi"@, 0);
    }
    assert(kind_of_name(stem + "png"@) == Some(AssetType::Image)) by {
        reveal_strlit("mp4");
        reveal_strlit("mkv");
        reveal_strlit("webm");
        reveal_strlit("mov");
        reveal_strlit("avi");
        reveal_strlit("mp3");
        reveal_strlit("flac");
        reveal_strlit("wav");
        reveal_strlit("ogg");
        reveal_strlit("m4a");
        reveal_strlit("aac");
        reveal_strlit("png");
        lemma_ends_in(stem, "png"@);
        lemma_not_ends_in(stem, "png"@, "mp4"@, 0);
        lemma_not_ends_in(stem, "png"@, "mkv"@, 0);
        lemma_not_ends_in(stem, "png"@, "webm"@, 0);
        lemma_not_ends_in(stem, "png"@, "mov"@, 0);
        lemma_not_ends_in(stem, "png"@, "avi"@, 0);
        lemma_not_ends_in(stem, "png"@, "mp3"@, 0);
        lemma_not_ends_in(stem, "png"@, "flac"@, 0);
        lemma_not_ends_in(stem, "png"@, "wav"@, 0);
        lemma_not_ends_in(stem, "png"@, "ogg"@, 1);
        lemma_not_ends_in(stem, "png"@, "m4a"@, 0);
        lemma_not_ends_in(stem, "png"@, "aac"@, 0);
    }
    assert(kind_of_name(stem + "jpg"@) == Some(AssetType::Image)) by {
        reveal_strlit("mp4");
        reveal_strlit("mkv");
        reveal_strlit("webm");
        reveal_strlit("mov");
        reveal_strlit("avi");
        reveal_strlit("mp3");
        reveal_strlit("flac");
        reveal_strlit("wav");
        reveal_strlit("ogg");
        reveal_strlit("m4a");
        reveal_strlit("aac");
        reveal_strlit("jpg");
        lemma_ends_in(stem, "jpg"@);
        lemma_not_ends_in(stem, "jpg"@, "mp4"@, 0);
        lemma_not_ends_in(stem, "jpg"@, "mkv"@, 0);
        lemma_not_ends_in(stem, "jpg"@, "webm"@, 0);
        lemma_not_ends_in(stem, "jpg"@, "mov"@, 0);
        lemma_not_ends_in(stem, "jpg"@, "avi"@, 0);
        lemma_not_ends_in(stem, "jpg"@, "mp3"@, 0);
        lemma_not_ends_in(stem, "jpg"@, "flac"@, 0);
        lemma_not_ends_in(stem, "jpg"@, "wav"@, 0);
        lemma_not_ends_in(stem, "jpg"@, "ogg"@, 1);
        lemma_not_ends_in(stem, "jpg"@, "m4a"@, 0);
        lemma_not_ends_in(stem, "jpg"@, "aac"@, 0);
    }
    assert(kind_of_name(stem + "jpeg"@) == Some(AssetType::Image)) by {
        reveal_strlit("mp4");
        reveal_strlit("mkv");
        reveal_strlit("webm");
        reveal_strlit("mov");
        reveal_strlit("avi");
        reveal_strlit("mp3");
        reveal_strlit("flac");
        reveal_strlit("wav");
        reveal_strlit("ogg");
        reveal_strlit("m4a");
        reveal_strlit("aac");
        reveal_strlit("jpeg");
        lemma_ends_in(stem, "jpeg"@);
        lemma_not_ends_in(stem, "jpeg"@, "mp4"@, 0);
        lemma_not_ends_in(stem, "jpeg"@, "mkv"@, 0);
        lemma_not_ends_in(stem, "jpeg"@, "webm"@, 0);
        lemma_not_ends_in(stem, "jpeg"@, "mov"@, 0);
        lemma_not_ends_in(stem, "jpeg"@, "avi"@, 0);
        lemma_not_ends_in(stem, "jpeg"@, "mp3"@, 0);
        lemma_not_ends_in(stem, "jpeg"@, "flac"@, 0);
        lemma_not_ends_in(stem, "jpeg"@, "wav"@, 0);
        lemma_not_ends_in(stem, "jpeg"@, "ogg"@, 1);
        lemma_not_ends_in(stem, "jpeg"@, "m4a"@, 0);
        lemma_not_ends_in(stem, "jpeg"@, "aac"@, 0);
    }
    assert(kind_of_name(stem + "webp"@) == Some(AssetType::Image)) by {
        reveal_strlit("mp4");
        reveal_strlit("mkv");
        reveal_strlit("webm");
        reveal_strlit("mov");
        reveal_strlit("avi");
        reveal_strlit("mp3");
        reveal_strlit("flac");
        reveal_strlit("wav");
        reveal_strlit("ogg");
        reveal_strlit("m4a");
        reveal_strlit("aac");
        reveal_strlit("webp");
        lemma_ends_in(stem, "webp"@);
        lemma_not_ends_in(stem, "webp"@, "mp4"@, 0);
        lemma_not_ends_in(stem, "webp"@, "mkv"@, 0);
        lemma_not_ends_in(stem, "webp"@, "webm"@, 0);
        lemma_not_ends_in(stem, "webp"@, "mov"@, 0);
        lemma_not_ends_in(stem, "webp"@, "avi"@, 0);
        lemma_not_ends_in(stem, "webp"@, "mp3"@, 0);
        lemma_not_ends_in(stem, "webp"@, "flac"@, 0);
        lemma_not_ends_in(stem, "webp"@, "wav"@, 0);
        lemma_not_ends_in(stem, "webp"@, "ogg"@, 0);
        lemma_not_ends_in(stem, "webp"@, "m4a"@, 0);
        lemma_not_ends_in(stem, "webp"@, "aac"@, 0);
    }
    assert(kind_of_name(stem + "bmp"@) == Some(AssetType::Image)) by {
        reveal_strlit("mp4");
        reveal_strlit("mkv");
        reveal_strlit("webm");
        reveal_strlit("mov");
        reveal_strlit("avi");
        reveal_strlit("mp3");
        reveal_strlit("flac");
        reveal_strlit("wav");
        reveal_strlit("ogg");
        reveal_strlit("m4a");
        reveal_strlit("aac");
        reveal_strlit("bmp");
        lemma_ends_in(stem, "bmp"@);
        lemma_not_ends_in(stem, "bmp"@, "mp4"@, 0);
        lemma_not_ends_in(stem, "bmp"@, "mkv"@, 0);
        lemma_not_ends_in(stem, "bmp"@, "webm"@, 0);
        lemma_not_ends_in(stem, "bmp"@, "mov"@, 0);
        lemma_not_ends_in(stem, "bmp"@, "avi"@, 0);
        lemma_not_ends_in(stem, "bmp"@, "mp3"@, 0);
        lemma_not_ends_in(stem, "bmp"@, "flac"@, 0);
        lemma_not_ends_in(stem, "bmp"@, "wav"@, 0);
        lemma_not_ends_in(stem, "bmp"@, "ogg"@, 0);
        lemma_not_ends_in(stem, "bmp"@, "m4a"@, 0);
        lemma_not_ends_in(stem, "bmp"@, "aac"@, 0);
    }
}

/// The media kind a lower-cased file name ends in (see `kind_of_name`).
pub fn kind_by_extension(lower: &str) -> (r: Option<AssetType>)
    ensures
        r == kind_of_name(lower@),
{
    let n = chars_of(lower);
    if ends_with_str(&n, "mp4") || ends_with_str(&n, "mkv") || ends_with_str(&n, "webm")
        || ends_with_str(&n, "mov") || ends_with_str(&n, "avi") {
        Some(AssetType::Video)
    } else if ends_with_str(&n, "mp3") || ends_with_str(&n, "flac") || ends_with_str(&n, "wav")
        || ends_with_str(&n, "ogg") || ends_with_str(&n, "m4a") || ends_with_str(&n, "aac") {
        Some(AssetType::Audio)
    } else if ends_with_str(&n, "png") || ends_with_str(&n, "jpg") || ends_with_str(&n, "jpeg")
        || ends_with_str(&n, "webp") || ends_with_str(&n, "bmp") {
        Some(AssetType::Image)
    } else {
        None
    }
}

/// The kind of an uploaded file, judged by its name lower-cased
/// (`str::to_lowercase`); any other file is refused with
/// `Unsupported file type: <name>`.
pub fn media_kind_for_name(name: &str) -> (r: Result<AssetType, String>)
    ensures
        (match r {
            Ok(t) => kind_of_name(lowercase(name@)) == Some(t),
            Err(m) => kind_of_name(lowercase(name@)) is None && m@ == "Unsupported file type: "@
                + name@,
        }),
{
    let lower = to_lowercase(name);
    match kind_by_extension(lower.as_str()) {
        Some(t) => Ok(t),
        None => {
            let mut m = String::new();
            push_str(&mut m, "Unsupported file type: ");
            push_str(&mut m, name);
            assert(m@ =~= "Unsupported file type: "@ + name@);
            Err(m)
        },
    }
}

/// The file name of a project download: `<project name>.snap`, or
/// `project.snap` with no project.
pub fn download_name(project_name: Option<&str>) -> (r: String)
    ensures
        r@ == match project_name {
            Some(n) => n@ + ".snap"@,
            None => "project.snap"@,
        },
{
    let mut s = String::new();
    match project_name {
        Some(n) => {
            push_str(&mut s, n);
            push_str(&mut s, ".snap");
            assert(s@ =~= n@ + ".snap"@);
        },
        None => {
            push_str(&mut s, "project.snap");
            assert(s@ =~= "project.snap"@);
        },
    }
    s
}

} // verus!
