//! Immutable value objects: equality by value, not identity.
use crate::binary64::{
    dyadic_le, dyadic_le_u128, quotient_double, quotient_double_u32, scaled_side, scaled_side_u32,
};
use crate::text::{decimal, padded, push_padded, push_str};
use vstd::prelude::*;

verus! {

/// Domain-level errors (no infrastructure details). Identifiers are the
/// 128-bit values of the entities' UUIDs.
#[derive(Debug, Clone, PartialEq)]
pub enum DomainError {
    NotFound { entity_type: &'static str, id: u128 },
    InvalidFrameRange { start: i64, end: i64 },
    TrackOutOfBounds { index: usize, max: usize },
    ClipOverlap { frame: i64, track: usize },
    InvalidOperation(String),
    AssetNotLinked(u128),
}

/// Frame rate as the fraction `num / den` frames per second.
#[derive(Debug, Clone, Copy, PartialEq, Eq, Structural)]
pub struct Fps {
    pub num: u32,
    pub den: u32,
}

/// The frame rate rounded to a whole number of frames per second, half
/// away from zero; an infinite rate (zero denominator) saturates and an
/// undefined one (`0 / 0`) counts as zero.
pub open spec fn rounded_rate(fps: Fps) -> nat {
    if fps.den == 0 {
        if fps.num == 0 {
            0
        } else {
            u64::MAX as nat
        }
    } else {
        ((2 * fps.num + fps.den) / (2 * fps.den)) as nat
    }
}

impl Fps {
    /// 24 frames per second.
    #[allow(non_snake_case)]
    pub fn F24() -> (r: Fps)
        ensures
            r.num == 24 && r.den == 1,
    {
        Fps { num: 24, den: 1 }
    }

    /// 30 frames per second.
    #[allow(non_snake_case)]
    pub fn F30() -> (r: Fps)
        ensures
            r.num == 30 && r.den == 1,
    {
        Fps { num: 30, den: 1 }
    }

    /// 60 frames per second.
    #[allow(non_snake_case)]
    pub fn F60() -> (r: Fps)
        ensures
            r.num == 60 && r.den == 1,
    {
        Fps { num: 60, den: 1 }
    }

    /// NTSC film rate, 24000 / 1001.
    #[allow(non_snake_case)]
    pub fn F23976() -> (r: Fps)
        ensures
            r.num == 24000 && r.den == 1001,
    {
        Fps { num: 24000, den: 1001 }
    }

    /// A frame rate; a zero denominator is raised to one.
    pub fn new(num: u32, den: u32) -> (r: Fps)
        ensures
            r.num == num,
            r.den == if den == 0 {
                1
            } else {
                den
            },
    {
        Fps { num, den: if den == 0 { 1 } else { den } }
    }

    /// The whole number of frames per second used for timecodes.
    pub fn rounded(&self) -> (r: u64)
        ensures
            r as nat == rounded_rate(*self),
    {
        if self.den == 0 {
            if self.num == 0 {
                0
            } else {
                u64::MAX
            }
        } else {
            let n = self.num as u64;
            let d = self.den as u64;
            (2 * n + d) / (2 * d)
        }
    }
}

/// A frame position in the timeline.
#[derive(Debug, Clone, Copy, PartialEq, Eq, PartialOrd, Ord, Hash, Structural)]
pub struct Frame(pub i64);

impl Frame {
    /// Frame zero.
    #[allow(non_snake_case)]
    pub fn ZERO() -> (r: Frame)
        ensures
            r.0 == 0,
    {
        Frame(0)
    }

    pub fn new(value: i64) -> (r: Frame)
        ensures
            r.0 == value,
    {
        Frame(value)
    }

    /// The SMPTE timecode of this frame at `fps`.
    pub fn to_timecode(&self, fps: Fps) -> (r: Timecode)
        requires
            rounded_rate(fps) > 0,
        ensures
            r == timecode_of(self.0 as int, rounded_rate(fps)),
    {
        Timecode::from_frame(*self, fps)
    }
}

/// Half-open frame range `[start, end)`.
#[derive(Debug, Clone, Copy, PartialEq, Eq, Hash, Structural)]
pub struct FrameRange {
    pub start: Frame,
    pub end: Frame,
}

impl FrameRange {
    /// A range; refused when `end` precedes `start`.
    pub fn new(start: Frame, end: Frame) -> (r: Result<FrameRange, DomainError>)
        ensures
            (match r {
                Ok(range) => start.0 <= end.0 && range.start == start && range.end == end,
                Err(e) => end.0 < start.0 && e == (DomainError::InvalidFrameRange {
                    start: start.0,
                    end: end.0,
                }),
            }),
    {
        if end.0 < start.0 {
            return Err(DomainError::InvalidFrameRange { start: start.0, end: end.0 });
        }
        Ok(FrameRange { start, end })
    }

    /// A range built without the ordering check.
    pub fn new_unchecked(start: i64, end: i64) -> (r: FrameRange)
        ensures
            r.start.0 == start,
            r.end.0 == end,
    {
        FrameRange { start: Frame(start), end: Frame(end) }
    }

    /// Number of frames in the range.
    pub fn duration(&self) -> (r: i64)
        requires
            i64::MIN <= self.end.0 - self.start.0 <= i64::MAX,
        ensures
            r == self.end.0 - self.start.0,
    {
        self.end.0 - self.start.0
    }

    pub open spec fn spec_contains(self, frame: Frame) -> bool {
        self.start.0 <= frame.0 && frame.0 < self.end.0
    }

    pub open spec fn spec_overlaps(self, other: FrameRange) -> bool {
        self.start.0 < other.end.0 && other.start.0 < self.end.0
    }

    /// The frame lies in `[start, end)`.
    pub fn contains(&self, frame: Frame) -> (r: bool)
        ensures
            r == self.spec_contains(frame),
    {
        frame.0 >= self.start.0 && frame.0 < self.end.0
    }

    /// The two ranges share at least one frame.
    pub fn overlaps(&self, other: &FrameRange) -> (r: bool)
        ensures
            r == self.spec_overlaps(*other),
    {
        self.start.0 < other.end.0 && other.start.0 < self.end.0
    }

    /// The range shifted by `delta` frames.
    pub fn offset(&self, delta: i64) -> (r: FrameRange)
        requires
            i64::MIN <= self.start.0 + delta <= i64::MAX,
            i64::MIN <= self.end.0 + delta <= i64::MAX,
        ensures
            r.start.0 == self.start.0 + delta,
            r.end.0 == self.end.0 + delta,
    {
        FrameRange { start: Frame(self.start.0 + delta), end: Frame(self.end.0 + delta) }
    }

    /// The range with a new start; refused when it would pass the end.
    pub fn trim_start(&self, new_start: Frame) -> (r: Result<FrameRange, DomainError>)
        ensures
            (match r {
                Ok(range) => new_start.0 <= self.end.0 && range.start == new_start && range.end
                    == self.end,
                Err(e) => self.end.0 < new_start.0 && e == (DomainError::InvalidFrameRange {
                    start: new_start.0,
                    end: self.end.0,
                }),
            }),
    {
        FrameRange::new(new_start, self.end)
    }

    /// The range with a new end; refused when it would precede the start.
    pub fn trim_end(&self, new_end: Frame) -> (r: Result<FrameRange, DomainError>)
        ensures
            (match r {
                Ok(range) => self.start.0 <= new_end.0 && range.start == self.start && range.end
                    == new_end,
                Err(e) => new_end.0 < self.start.0 && e == (DomainError::InvalidFrameRange {
                    start: self.start.0,
                    end: new_end.0,
                }),
            }),
    {
        FrameRange::new(self.start, new_end)
    }
}

/// Overlap is symmetric, and a range overlaps itself exactly when it is
/// not empty.
pub proof fn law_overlaps_symmetric(a: FrameRange, b: FrameRange)
    ensures
        a.spec_overlaps(b) == b.spec_overlaps(a),
        a.spec_overlaps(a) == (a.start.0 < a.end.0),
{
}

/// Two non-empty ranges overlap exactly when some frame lies in both.
pub proof fn law_overlaps_iff_common_frame(a: FrameRange, b: FrameRange)
    requires
        a.start.0 < a.end.0,
        b.start.0 < b.end.0,
    ensures
        (a.spec_overlaps(b) <==> (exists|f: i64| a.spec_contains(Frame(f)) && b.spec_contains(Frame(f)))),
{
    if a.spec_overlaps(b) {
        let f: i64 = if a.start.0 < b.start.0 {
            b.start.0
        } else {
            a.start.0
        };
        assert(a.spec_contains(Frame(f)) && b.spec_contains(Frame(f)));
    }
}

/// Shifting a range keeps its length, and shifting back restores it.
pub proof fn law_offset_roundtrip(r: FrameRange, delta: int)
    requires
        i64::MIN <= r.start.0 + delta <= i64::MAX,
        i64::MIN <= r.end.0 + delta <= i64::MAX,
    ensures
        ({
            let s = FrameRange {
                start: Frame((r.start.0 + delta) as i64),
                end: Frame((r.end.0 + delta) as i64),
            };
            &&& s.end.0 - s.start.0 == r.end.0 - r.start.0
            &&& FrameRange {
                start: Frame((s.start.0 - delta) as i64),
                end: Frame((s.end.0 - delta) as i64),
            } == r
        }),
{
}

/// SMPTE timecode.
#[derive(Debug, Clone, Copy, PartialEq, Eq, Structural)]
pub struct Timecode {
    pub hours: u64,
    pub minutes: u64,
    pub seconds: u64,
    pub frames: u64,
    pub negative: bool,
}

/// Magnitude of a frame number.
pub open spec fn frame_magnitude(frame: int) -> nat {
    if frame < 0 {
        (-frame) as nat
    } else {
        frame as nat
    }
}

/// The timecode of `frame` at `rate` whole frames per second.
pub open spec fn timecode_of(frame: int, rate: nat) -> Timecode {
    let total = frame_magnitude(frame);
    let total_seconds = total / rate;
    let total_minutes = total_seconds / 60;
    Timecode {
        hours: (total_minutes / 60) as u64,
        minutes: (total_minutes % 60) as u64,
        seconds: (total_seconds % 60) as u64,
        frames: (total % rate) as u64,
        negative: frame < 0,
    }
}

/// `HH:MM:SS:FF`, each field at least two digits, with a leading `-` for
/// negative timecodes.
pub open spec fn smpte_text(tc: Timecode) -> Seq<char> {
    (if tc.negative {
        seq!['-']
    } else {
        Seq::<char>::empty()
    }) + padded(tc.hours as nat, 2) + seq![':'] + padded(tc.minutes as nat, 2) + seq![':']
        + padded(tc.seconds as nat, 2) + seq![':'] + padded(tc.frames as nat, 2)
}

impl Timecode {
    /// Splits a frame number into hours, minutes, seconds and frames at the
    /// rounded frame rate.
    pub fn from_frame(frame: Frame, fps: Fps) -> (r: Timecode)
        requires
            rounded_rate(fps) > 0,
        ensures
            r == timecode_of(frame.0 as int, rounded_rate(fps)),
    {
        let total_frames: u64 = if frame.0 < 0 {
            ((-(frame.0 + 1)) as u64) + 1
        } else {
            frame.0 as u64
        };
        let fps_rounded = fps.rounded();
        let frames = total_frames % fps_rounded;
        let total_seconds = total_frames / fps_rounded;
        let seconds = total_seconds % 60;
        let total_minutes = total_seconds / 60;
        let minutes = total_minutes % 60;
        let hours = total_minutes / 60;
        Timecode { hours, minutes, seconds, frames, negative: frame.0 < 0 }
    }

    /// The `HH:MM:SS:FF` rendering.
    pub fn to_string_smpte(&self) -> (s: String)
        ensures
            s@ == smpte_text(*self),
    {
        let mut s = String::new();
        if self.negative {
            push_str(&mut s, "-");
            proof {
                reveal_strlit("-");
            }
        }
        push_padded(&mut s, self.hours, 2);
        push_str(&mut s, ":");
        push_padded(&mut s, self.minutes, 2);
        push_str(&mut s, ":");
        push_padded(&mut s, self.seconds, 2);
        push_str(&mut s, ":");
        push_padded(&mut s, self.frames, 2);
        proof {
            reveal_strlit(":");
            assert(s@ =~= smpte_text(*self));
        }
        s
    }
}

/// A timecode names its frame exactly: the fields recombine into the
/// frame's magnitude, each field below its unit.
pub proof fn law_timecode_recombines(frame: int, rate: nat)
    requires
        rate > 0,
        i64::MIN <= frame <= i64::MAX,
    ensures
        ({
            let tc = timecode_of(frame, rate);
            &&& tc.frames < rate
            &&& tc.seconds < 60
            &&& tc.minutes < 60
            &&& ((tc.hours * 60 + tc.minutes) * 60 + tc.seconds) * rate + tc.frames
                == frame_magnitude(frame)
        }),
{
    let total = frame_magnitude(frame) as int;
    let r = rate as int;
    let ts = total / r;
    let tm = ts / 60;
    assert(total == r * ts + total % r) by {
        vstd::arithmetic::div_mod::lemma_fundamental_div_mod(total, r);
    }
    assert(ts == 60 * tm + ts % 60) by {
        vstd::arithmetic::div_mod::lemma_fundamental_div_mod(ts, 60);
    }
    assert(tm == 60 * (tm / 60) + tm % 60) by {
        vstd::arithmetic::div_mod::lemma_fundamental_div_mod(tm, 60);
    }
    assert(0 <= total % r < r) by {
        vstd::arithmetic::div_mod::lemma_mod_pos_bound(total, r);
    }
    assert(ts >= 0 && tm >= 0) by {
        vstd::arithmetic::div_mod::lemma_div_pos_is_pos(total, r);
    }
    assert(ts <= total) by (nonlinear_arith)
        requires
            total == r * ts + total % r,
            total % r >= 0,
            r >= 1,
            ts >= 0,
    ;
    assert(total <= 0x8000_0000_0000_0000);
    let h = tm / 60;
    assert(((h * 60 + tm % 60) * 60 + ts % 60) * r == ts * r) by (nonlinear_arith)
        requires
            tm == 60 * h + tm % 60,
            ts == 60 * tm + ts % 60,
    ;
    assert(ts * r == r * ts) by (nonlinear_arith);
}

/// Width by height in pixels.
#[derive(Debug, Clone, Copy, PartialEq, Eq, Hash, Structural)]
pub struct Resolution {
    pub width: u32,
    pub height: u32,
}

/// The size `fit_within` computes for `w x h` in `mw x mh`, with the
/// arithmetic of 64-bit floats: the scale is the smaller of the quotients
/// `mw / w` and `mh / h` (each rounded to a double; a quotient by zero
/// never wins), each side is multiplied by it (rounded to a double),
/// rounded to the nearest integer (halves away from zero) and cast back.
/// With both sides zero the product is undefined and casts to 0.
pub open spec fn fitted_size(w: nat, h: nat, mw: nat, mh: nat) -> (nat, nat) {
    if w == 0 && h == 0 {
        (0, 0)
    } else if w == 0 {
        (0, scaled_side(h, quotient_double(mh, h)))
    } else if h == 0 {
        (scaled_side(w, quotient_double(mw, w)), 0)
    } else {
        let a = quotient_double(mw, w);
        let b = quotient_double(mh, h);
        let s = if dyadic_le(a, b) {
            a
        } else {
            b
        };
        (scaled_side(w, s), scaled_side(h, s))
    }
}

impl Resolution {
    /// Full HD, 1920 x 1080.
    #[allow(non_snake_case)]
    pub fn HD() -> (r: Resolution)
        ensures
            r.width == 1920 && r.height == 1080,
    {
        Resolution { width: 1920, height: 1080 }
    }

    /// Ultra HD, 3840 x 2160.
    #[allow(non_snake_case)]
    pub fn UHD() -> (r: Resolution)
        ensures
            r.width == 3840 && r.height == 2160,
    {
        Resolution { width: 3840, height: 2160 }
    }

    pub fn new(width: u32, height: u32) -> (r: Resolution)
        ensures
            r.width == width,
            r.height == height,
    {
        Resolution { width, height }
    }

    /// Total number of pixels.
    pub fn pixel_count(&self) -> (r: u64)
        ensures
            r == self.width * self.height,
    {
        assert(self.width * self.height <= u32::MAX * u32::MAX) by (nonlinear_arith)
            requires
                self.width <= u32::MAX,
                self.height <= u32::MAX,
        ;
        (self.width as u64) * (self.height as u64)
    }

    /// Scales to fit inside `max_width x max_height`, keeping the aspect
    /// ratio (see `fitted_size`).
    pub fn fit_within(&self, max_width: u32, max_height: u32) -> (r: Resolution)
        ensures
            (r.width as nat, r.height as nat) == fitted_size(
                self.width as nat,
                self.height as nat,
                max_width as nat,
                max_height as nat,
            ),
    {
        let w = self.width;
        let h = self.height;
        if w == 0 && h == 0 {
            Resolution { width: 0, height: 0 }
        } else if w == 0 {
            let b = quotient_double_u32(max_height, h);
            Resolution { width: 0, height: scaled_side_u32(h, b) }
        } else if h == 0 {
            let a = quotient_double_u32(max_width, w);
            Resolution { width: scaled_side_u32(w, a), height: 0 }
        } else {
            let a = quotient_double_u32(max_width, w);
            let b = quotient_double_u32(max_height, h);
            let s = if dyadic_le_u128(a, b) {
                a
            } else {
                b
            };
            Resolution { width: scaled_side_u32(w, s), height: scaled_side_u32(h, s) }
        }
    }
}

} // verus!
