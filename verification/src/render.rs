//! Rendering and export: output formats and quality presets, settings
//! validation, encoder profiles, thumbnail scaling, and the frame sampling
//! of export-plan validation.
use crate::text::{decimal, push_decimal, push_signed, push_str, signed_decimal};
use vstd::prelude::*;

verus! {

/// Container and codec of an export.
#[derive(Debug, Clone, PartialEq, Eq, Structural)]
pub enum OutputFormat {
    Mp4H264,
    Mp4H265,
    WebmVp9,
    MovProRes,
    PngSequence,
    JpegSequence,
}

impl Default for OutputFormat {
    fn default() -> (r: OutputFormat)
        ensures
            r == OutputFormat::Mp4H264,
    {
        OutputFormat::Mp4H264
    }
}

/// Name of a format as `{:?}` prints it.
pub open spec fn output_format_name(f: OutputFormat) -> Seq<char> {
    match f {
        OutputFormat::Mp4H264 => "Mp4H264"@,
        OutputFormat::Mp4H265 => "Mp4H265"@,
        OutputFormat::WebmVp9 => "WebmVp9"@,
        OutputFormat::MovProRes => "MovProRes"@,
        OutputFormat::PngSequence => "PngSequence"@,
        OutputFormat::JpegSequence => "JpegSequence"@,
    }
}

impl OutputFormat {
    /// The variant's name, as `{:?}` prints it.
    pub fn debug_name(&self) -> (r: &'static str)
        ensures
            r@ == output_format_name(*self),
    {
        match self {
            OutputFormat::Mp4H264 => "Mp4H264",
            OutputFormat::Mp4H265 => "Mp4H265",
            OutputFormat::WebmVp9 => "WebmVp9",
            OutputFormat::MovProRes => "MovProRes",
            OutputFormat::PngSequence => "PngSequence",
            OutputFormat::JpegSequence => "JpegSequence",
        }
    }
}

/// Encoding speed / quality trade-off.
#[derive(Debug, Clone, Copy, PartialEq, Eq, Structural)]
pub enum QualityPreset {
    Draft,
    Preview,
    Standard,
    High,
    Master,
}

impl Default for QualityPreset {
    fn default() -> (r: QualityPreset)
        ensures
            r == QualityPreset::Standard,
    {
        QualityPreset::Standard
    }
}

/// Stage of a render job.
#[derive(Debug, Clone, Copy, PartialEq, Eq, Structural)]
pub enum RenderPhase {
    Preparing,
    RenderingVideo,
    EncodingAudio,
    Muxing,
    Finalizing,
    Complete,
}

/// Why a render could not be done.
#[derive(Debug, Clone, PartialEq)]
pub enum RenderError {
    InvalidSettings(String),
    CodecNotAvailable(String),
    IoError(String),
    EncodingError(String),
    Cancelled,
    HardwareAccelFailed(String),
}

/// The message of a render error, as it is displayed.
pub open spec fn render_error_text(e: RenderError) -> Seq<char> {
    match e {
        RenderError::InvalidSettings(m) => "Invalid render settings: "@ + m@,
        RenderError::CodecNotAvailable(m) => "Codec not available: "@ + m@,
        RenderError::IoError(m) => "IO error: "@ + m@,
        RenderError::EncodingError(m) => "Encoding error: "@ + m@,
        RenderError::Cancelled => "Render cancelled"@,
        RenderError::HardwareAccelFailed(m) => "Hardware acceleration failed: "@ + m@,
    }
}

impl RenderError {
    /// The displayed message.
    pub fn message(&self) -> (r: String)
        ensures
            r@ == render_error_text(*self),
    {
        let mut s = String::new();
        match self {
            RenderError::InvalidSettings(m) => {
                push_str(&mut s, "Invalid render settings: ");
                push_str(&mut s, m.as_str());
            },
            RenderError::CodecNotAvailable(m) => {
                push_str(&mut s, "Codec not available: ");
                push_str(&mut s, m.as_str());
            },
            RenderError::IoError(m) => {
                push_str(&mut s, "IO error: ");
                push_str(&mut s, m.as_str());
            },
            RenderError::EncodingError(m) => {
                push_str(&mut s, "Encoding error: ");
                push_str(&mut s, m.as_str());
            },
            RenderError::Cancelled => {
                push_str(&mut s, "Render cancelled");
            },
            RenderError::HardwareAccelFailed(m) => {
                push_str(&mut s, "Hardware acceleration failed: ");
                push_str(&mut s, m.as_str());
            },
        }
        assert(s@ =~= render_error_text(*self));
        s
    }
}

/// The x264 preset and constant rate factor of a quality preset.
pub open spec fn quality_profile_spec(q: QualityPreset) -> (Seq<char>, Seq<char>) {
    match q {
        QualityPreset::Draft => ("veryfast"@, "30"@),
        QualityPreset::Preview => ("faster"@, "27"@),
        QualityPreset::Standard => ("medium"@, "23"@),
        QualityPreset::High => ("slow"@, "20"@),
        QualityPreset::Master => ("slow"@, "17"@),
    }
}

/// Encoder preset and CRF for a quality preset.
pub fn quality_profile(quality: QualityPreset) -> (r: (&'static str, &'static str))
    ensures
        (r.0@, r.1@) == quality_profile_spec(quality),
{
    match quality {
        QualityPreset::Draft => ("veryfast", "30"),
        QualityPreset::Preview => ("faster", "27"),
        QualityPreset::Standard => ("medium", "23"),
        QualityPreset::High => ("slow", "20"),
        QualityPreset::Master => ("slow", "17"),
    }
}

/// The render service; hardware acceleration is not detected.
pub struct RenderService {
    hardware_accel_available: bool,
}

impl RenderService {
    pub closed spec fn spec_hardware_accel(&self) -> bool {
        self.hardware_accel_available
    }

    pub fn new() -> (r: RenderService)
        ensures
            !r.spec_hardware_accel(),
    {
        RenderService { hardware_accel_available: false }
    }

    /// Only MP4 / H.264 can be encoded.
    pub fn is_format_supported(&self, format: &OutputFormat) -> (r: bool)
        ensures
            r == (*format == OutputFormat::Mp4H264),
    {
        match format {
            OutputFormat::Mp4H264 => true,
            _ => false,
        }
    }

    pub fn is_hardware_accel_available(&self) -> (r: bool)
        ensures
            r == self.spec_hardware_accel(),
    {
        self.hardware_accel_available
    }

    /// Checks export settings: a zero-sized resolution, then a frame rate
    /// that is not positive (`fps_positive` is `!(fps <= 0.0)`), then an
    /// unsupported format, each refused with its own error.
    pub fn validate_settings(
        &self,
        resolution: (u32, u32),
        fps_positive: bool,
        format: &OutputFormat,
    ) -> (r: Result<(), RenderError>)
        ensures
            (match r {
                Ok(()) => resolution.0 != 0 && resolution.1 != 0 && fps_positive && *format
                    == OutputFormat::Mp4H264,
                Err(RenderError::InvalidSettings(m)) => if resolution.0 == 0 || resolution.1 == 0 {
                    m@ == "Resolution must be non-zero"@
                } else {
                    !fps_positive && m@ == "Frame rate must be positive"@
                },
                Err(RenderError::CodecNotAvailable(m)) => resolution.0 != 0 && resolution.1 != 0
                    && fps_positive && *format != OutputFormat::Mp4H264 && m@ == output_format_name(
                    *format,
                ),
                Err(_) => false,
            }),
    {
        if resolution.0 == 0 || resolution.1 == 0 {
            return Err(RenderError::InvalidSettings("Resolution must be non-zero".to_owned()));
        }
        if !fps_positive {
            return Err(RenderError::InvalidSettings("Frame rate must be positive".to_owned()));
        }
        if !self.is_format_supported(format) {
            return Err(RenderError::CodecNotAvailable(format.debug_name().to_owned()));
        }
        Ok(())
    }
}

/// Most validation findings an export plan reports.
pub const MAX_PLAN_ISSUES: usize = 8;

/// Sampling stride of export-plan validation: about 2000 frames at most.
pub fn plan_stride(total_frames: u64) -> (r: u64)
    ensures
        r == if total_frames / 2000 > 0 {
            total_frames / 2000
        } else {
            1
        },
        r >= 1,
{
    let s = total_frames / 2000;
    if s > 0 {
        s
    } else {
        1
    }
}

/// How a validation finding of frame `i` (at `timestamp_us`) is reported.
pub open spec fn finding_text(i: nat, timestamp_us: int, violation: Seq<char>) -> Seq<char> {
    "frame "@ + decimal(i) + " ("@ + signed_decimal(timestamp_us) + "µs): "@ + violation
}

/// The findings of frame `i` added to `issues`, up to `MAX_PLAN_ISSUES` in
/// all.
pub open spec fn with_findings(
    issues: Seq<Seq<char>>,
    i: nat,
    timestamp_us: int,
    violations: Seq<Seq<char>>,
) -> Seq<Seq<char>> {
    let room = if issues.len() < MAX_PLAN_ISSUES {
        MAX_PLAN_ISSUES - issues.len()
    } else {
        0
    };
    let taken = if violations.len() < room {
        violations.len()
    } else {
        room as nat
    };
    issues + Seq::new(taken, |k: int| finding_text(i, timestamp_us, violations[k]))
}

/// What the validation of an export plan has found so far over the sampled
/// frames: the most layers composited in one frame, and the findings, at
/// most `MAX_PLAN_ISSUES`.
pub struct PlanFindings {
    pub max_layers: usize,
    pub issues: Vec<String>,
}

impl PlanFindings {
    pub fn new() -> (r: PlanFindings)
        ensures
            r.max_layers == 0,
            r.issues@.len() == 0,
    {
        PlanFindings { max_layers: 0, issues: Vec::new() }
    }

    /// Records sampled frame `i` (at `timestamp_us`), which composites
    /// `layers` top-level layers and has the given validation findings,
    /// each as `{:?}` prints it.
    pub fn record_frame(&mut self, i: u64, timestamp_us: i64, layers: usize, violations: &Vec<String>)
        ensures
            final(self).max_layers == if layers > old(self).max_layers {
                layers
            } else {
                old(self).max_layers
            },
            crate::text::texts_of(final(self).issues@) == with_findings(
                crate::text::texts_of(old(self).issues@),
                i as nat,
                timestamp_us as int,
                crate::text::texts_of(violations@),
            ),
    {
        if layers > self.max_layers {
            self.max_layers = layers;
        }
        let ghost start = crate::text::texts_of(self.issues@);
        let ghost vs = crate::text::texts_of(violations@);
        let ghost ml = self.max_layers;
        let ghost room: nat = if start.len() < MAX_PLAN_ISSUES {
            (MAX_PLAN_ISSUES - start.len()) as nat
        } else {
            0
        };
        if self.issues.len() < MAX_PLAN_ISSUES {
            let mut k: usize = 0;
            while k < violations.len() && self.issues.len() < MAX_PLAN_ISSUES
                invariant
                    k <= violations@.len(),
                    vs == crate::text::texts_of(violations@),
                    start.len() < MAX_PLAN_ISSUES,
                    room == MAX_PLAN_ISSUES - start.len(),
                    self.max_layers == ml,
                    self.issues@.len() == start.len() + k,
                    start.len() + k <= MAX_PLAN_ISSUES,
                    crate::text::texts_of(self.issues@) == start + Seq::new(
                        k as nat,
                        |j: int| finding_text(i as nat, timestamp_us as int, vs[j]),
                    ),
                decreases violations@.len() - k,
            {
                let mut m = String::new();
                push_str(&mut m, "frame ");
                push_decimal(&mut m, i);
                push_str(&mut m, " (");
                push_signed(&mut m, timestamp_us);
                push_str(&mut m, "µs): ");
                push_str(&mut m, violations[k].as_str());
                let ghost before = self.issues@;
                self.issues.push(m);
                proof {
                    assert(m@ =~= finding_text(i as nat, timestamp_us as int, vs[k as int]));
                    assert(crate::text::texts_of(self.issues@) =~= crate::text::texts_of(before).push(
                        m@,
                    ));
                }
                k = k + 1;
                assert(crate::text::texts_of(self.issues@) =~= start + Seq::new(
                    k as nat,
                    |j: int| finding_text(i as nat, timestamp_us as int, vs[j]),
                ));
            }
            assert(crate::text::texts_of(self.issues@) =~= with_findings(
                start,
                i as nat,
                timestamp_us as int,
                vs,
            ));
        } else {
            assert(crate::text::texts_of(self.issues@) =~= with_findings(
                start,
                i as nat,
                timestamp_us as int,
                vs,
            ));
        }
    }
}

/// Why an export plan with findings is refused: their count and the first.
pub open spec fn plan_refusal_text(issues: Seq<Seq<char>>) -> Seq<char> {
    "render graph invalid ("@ + decimal(issues.len()) + " issue(s), first: "@ + issues[0] + ")"@
}

/// The refusal of an export whose plan has findings; none for a clean plan.
pub fn plan_refusal(issues: &Vec<String>) -> (r: Option<RenderError>)
    ensures
        (match r {
            None => issues@.len() == 0,
            Some(e) => issues@.len() > 0 && (e matches RenderError::InvalidSettings(m) && m@
                == plan_refusal_text(crate::text::texts_of(issues@))),
        }),
{
    if issues.len() == 0 {
        return None;
    }
    let mut m = String::new();
    push_str(&mut m, "render graph invalid (");
    push_decimal(&mut m, issues.len() as u64);
    push_str(&mut m, " issue(s), first: ");
    push_str(&mut m, issues[0].as_str());
    push_str(&mut m, ")");
    assert(m@ =~= plan_refusal_text(crate::text::texts_of(issues@)));
    Some(RenderError::InvalidSettings(m))
}

/// Frame `i` of `total_frames` is validated: every `stride`-th frame and
/// always the last one.
pub fn frame_is_sampled(i: u64, total_frames: u64, stride: u64) -> (r: bool)
    requires
        stride > 0,
    ensures
        r == (i % stride == 0 || i + 1 == total_frames),
{
    i % stride == 0 || (i < u64::MAX && i + 1 == total_frames)
}

/// The source row (or column) that destination row `i` samples: the
/// nearest-neighbour position, clamped to the last source row.
pub open spec fn nearest_source(i: nat, src_n: nat, dst_n: nat) -> nat {
    let s = i * src_n / dst_n;
    if s < src_n {
        s
    } else {
        (src_n - 1) as nat
    }
}

/// Byte offset in the source of the pixel that destination pixel `(x, y)`
/// copies.
pub open spec fn source_offset(x: nat, y: nat, sw: nat, sh: nat, dw: nat, dh: nat) -> nat {
    4 * (nearest_source(y, sh, dh) * sw + nearest_source(x, sw, dw))
}

/// The inputs on which nearest-neighbour scaling neither overflows its
/// 32-bit arithmetic nor reads past the source.
pub open spec fn scale_inputs_ok(src_len: nat, sw: nat, sh: nat, dw: nat, dh: nat) -> bool {
    &&& 4 * dw * dh <= u32::MAX
    &&& (dw > 0 && dh > 0) ==> {
        &&& sw > 0
        &&& sh > 0
        &&& (dw - 1) * sw <= u32::MAX
        &&& (dh - 1) * sh <= u32::MAX
        &&& source_offset((dw - 1) as nat, (dh - 1) as nat, sw, sh, dw, dh) <= u32::MAX
        &&& source_offset((dw - 1) as nat, (dh - 1) as nat, sw, sh, dw, dh) + 4 <= src_len
    }
}

proof fn lemma_nearest_monotone(i: nat, j: nat, src_n: nat, dst_n: nat)
    requires
        i <= j,
        dst_n > 0,
        src_n > 0,
    ensures
        nearest_source(i, src_n, dst_n) <= nearest_source(j, src_n, dst_n),
        nearest_source(i, src_n, dst_n) < src_n,
{
    assert(i * src_n <= j * src_n) by (nonlinear_arith)
        requires
            i <= j,
    ;
    vstd::arithmetic::div_mod::lemma_div_is_ordered((i * src_n) as int, (j * src_n) as int, dst_n as int);
}

proof fn lemma_offset_bound(x: nat, y: nat, sw: nat, sh: nat, dw: nat, dh: nat)
    requires
        x < dw,
        y < dh,
        sw > 0,
        sh > 0,
    ensures
        source_offset(x, y, sw, sh, dw, dh) <= source_offset((dw - 1) as nat, (dh - 1) as nat, sw, sh, dw, dh),
        nearest_source(x, sw, dw) < sw,
        nearest_source(y, sh, dh) < sh,
{
    lemma_nearest_monotone(x, (dw - 1) as nat, sw, dw);
    lemma_nearest_monotone(y, (dh - 1) as nat, sh, dh);
    let a = nearest_source(y, sh, dh);
    let b = nearest_source((dh - 1) as nat, sh, dh);
    assert(a * sw <= b * sw) by (nonlinear_arith)
        requires
            a <= b,
    ;
}

/// The source row (or column) sampled for destination index `i`.
fn nearest_index(i: u32, src_n: u32, dst_n: u32) -> (r: u32)
    requires
        i < dst_n,
        src_n > 0,
        (dst_n - 1) * src_n <= u32::MAX,
    ensures
        r == nearest_source(i as nat, src_n as nat, dst_n as nat),
{
    assert(i * src_n <= (dst_n - 1) * src_n) by (nonlinear_arith)
        requires
            i < dst_n,
    ;
    let s = i * src_n / dst_n;
    if s < src_n - 1 {
        s
    } else {
        src_n - 1
    }
}

/// Copies the four bytes of one pixel.
fn copy_pixel(dst: &mut Vec<u8>, di: usize, src: &[u8], si: usize)
    requires
        di + 4 <= old(dst).len(),
        si + 4 <= src.len(),
    ensures
        final(dst)@.len() == old(dst)@.len(),
        forall|k: int|
            0 <= k < old(dst)@.len() && (k < di || k >= di + 4) ==> #[trigger] final(dst)@[k]
                == old(dst)@[k],
        forall|k: int| di <= k < di + 4 ==> #[trigger] final(dst)@[k] == src@[si + (k - di)],
{
    let mut c: usize = 0;
    while c < 4
        invariant
            c <= 4,
            di + 4 <= dst.len(),
            si + 4 <= src.len(),
            dst@.len() == old(dst)@.len(),
            forall|k: int|
                0 <= k < old(dst)@.len() && (k < di || k >= di + c) ==> #[trigger] dst@[k]
                    == old(dst)@[k],
            forall|k: int| di <= k < di + c ==> #[trigger] dst@[k] == src@[si + (k - di)],
        decreases 4 - c,
    {
        dst.set(di + c, src[si + c]);
        c = c + 1;
    }
}

/// Nearest-neighbour resize of packed RGBA pixels (`src_w x src_h` to
/// `dst_w x dst_h`): every destination pixel copies the source pixel at
/// `(min(x * src_w / dst_w, src_w - 1), min(y * src_h / dst_h, src_h - 1))`.
pub fn scale_rgba_nearest(src: &[u8], src_w: u32, src_h: u32, dst_w: u32, dst_h: u32) -> (r: Vec<u8>)
    requires
        scale_inputs_ok(src@.len(), src_w as nat, src_h as nat, dst_w as nat, dst_h as nat),
    ensures
        r@.len() == 4 * dst_w * dst_h,
        forall|x: int, y: int, c: int|
            0 <= x < dst_w && 0 <= y < dst_h && 0 <= c < 4 ==> #[trigger] r@[4 * (y * dst_w + x) + c]
                == src@[source_offset(x as nat, y as nat, src_w as nat, src_h as nat, dst_w as nat, dst_h as nat) + c],
{
    let ghost sw = src_w as nat;
    let ghost sh = src_h as nat;
    let ghost dw = dst_w as nat;
    let ghost dh = dst_h as nat;
    assert(dw * dh * 4 == 4 * dw * dh && dw * dh <= 4 * dw * dh) by (nonlinear_arith);
    let n = dst_w * dst_h * 4;
    let mut dst: Vec<u8> = vec![0u8; n as usize];
    let mut y: u32 = 0;
    while y < dst_h
        invariant
            scale_inputs_ok(src@.len(), sw, sh, dw, dh),
            sw == src_w && sh == src_h && dw == dst_w && dh == dst_h,
            dst@.len() == 4 * dw * dh,
            y <= dst_h,
            forall|q: int, c: int|
                0 <= q < y * dw && 0 <= c < 4 ==> #[trigger] dst@[4 * q + c] == src@[source_offset(
                    (q % (dw as int)) as nat,
                    (q / (dw as int)) as nat,
                    sw,
                    sh,
                    dw,
                    dh,
                ) + c],
        decreases dst_h - y,
    {
        let mut x: u32 = 0;
        while x < dst_w
            invariant
                scale_inputs_ok(src@.len(), sw, sh, dw, dh),
                sw == src_w && sh == src_h && dw == dst_w && dh == dst_h,
                dst@.len() == 4 * dw * dh,
                y < dst_h,
                x <= dst_w,
                forall|q: int, c: int|
                    0 <= q < y * dw + x && 0 <= c < 4 ==> #[trigger] dst@[4 * q + c] == src@[source_offset(
                        (q % (dw as int)) as nat,
                        (q / (dw as int)) as nat,
                        sw,
                        sh,
                        dw,
                        dh,
                    ) + c],
            decreases dst_w - x,
        {
            let sx = nearest_index(x, src_w, dst_w);
            let sy = nearest_index(y, src_h, dst_h);
            let ghost q0: int = y * dw + x;
            proof {
                lemma_offset_bound(x as nat, y as nat, sw, sh, dw, dh);
                assert(q0 < dw * dh) by (nonlinear_arith)
                    requires
                        q0 == y * dw + x,
                        x < dw,
                        y < dh,
                ;
                assert(4 * q0 + 4 <= 4 * dw * dh) by (nonlinear_arith)
                    requires
                        q0 < dw * dh,
                ;
                vstd::arithmetic::div_mod::lemma_fundamental_div_mod_converse(
                    q0,
                    dw as int,
                    y as int,
                    x as int,
                );
            }
            let si = ((sy * src_w + sx) * 4) as usize;
            let di = ((y * dst_w + x) * 4) as usize;
            let ghost before = dst@;
            copy_pixel(&mut dst, di, src, si);
            proof {
                assert forall|q: int, c: int|
                    0 <= q < q0 + 1 && 0 <= c < 4 implies #[trigger] dst@[4 * q + c] == src@[source_offset(
                    (q % (dw as int)) as nat,
                    (q / (dw as int)) as nat,
                    sw,
                    sh,
                    dw,
                    dh,
                ) + c] by {
                    if q < q0 {
                        assert(dst@[4 * q + c] == before[4 * q + c]);
                    } else {
                        assert(dst@[di + c] == src@[si + c]);
                    }
                }
            }
            x = x + 1;
        }
        assert((y + 1) * dw == y * dw + dw) by (nonlinear_arith);
        y = y + 1;
    }
    proof {
        assert forall|x: int, y: int, c: int|
            0 <= x < dst_w && 0 <= y < dst_h && 0 <= c < 4 implies #[trigger] dst@[4 * (y * dst_w + x) + c]
                == src@[source_offset(x as nat, y as nat, sw, sh, dw, dh) + c] by {
            let q = y * dw + x;
            assert(q < dh * dw) by (nonlinear_arith)
                requires
                    q == y * dw + x,
                    x < dw,
                    y < dh,
            ;
            vstd::arithmetic::div_mod::lemma_fundamental_div_mod_converse(q, dw as int, y, x);
            assert(dst@[4 * q + c] == src@[source_offset((q % (dw as int)) as nat, (q / (dw as int)) as nat, sw, sh, dw, dh) + c]);
        }
    }
    dst
}

} // verus!
