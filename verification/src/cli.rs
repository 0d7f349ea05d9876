//! Command-line front end: configuration and results, media kinds by file
//! extension, human-readable sizes and durations, and the argument checks
//! of the `export`, `list` and `analyze` commands.
use crate::binary64::{nearest_double, nearest_double_u64, round_half_even_div, round_half_even_u128};
use crate::text::{
    decimal, padded, push_decimal, push_padded, push_str, str_is,
};
use vstd::prelude::*;

verus! {

/// Output format for structured data.
#[derive(Debug, Clone, Copy, PartialEq, Eq, Structural)]
pub enum OutputFormat {
    /// Human-readable text
    Text,
    /// JSON
    Json,
    /// YAML
    Yaml,
}

/// Command-line configuration; `working_dir` is a path.
#[derive(Debug, Clone)]
pub struct CliConfig {
    pub verbose: bool,
    pub output_format: OutputFormat,
    pub working_dir: String,
}

impl CliConfig {
    /// The default configuration rooted at `working_dir`: quiet, text output.
    pub fn default_in(working_dir: String) -> (r: CliConfig)
        ensures
            !r.verbose,
            r.output_format == OutputFormat::Text,
            r.working_dir == working_dir,
    {
        CliConfig { verbose: false, output_format: OutputFormat::Text, working_dir }
    }
}

/// Outcome of a command.
#[derive(Debug)]
pub struct CliResult {
    pub success: bool,
    pub message: String,
    pub exit_code: i32,
}

impl CliResult {
    /// A success with exit code 0.
    pub fn success(message: &str) -> (r: CliResult)
        ensures
            r.success,
            r.message@ == message@,
            r.exit_code == 0,
    {
        CliResult { success: true, message: message.to_owned(), exit_code: 0 }
    }

    /// A failure with the given exit code.
    pub fn failure(message: &str, exit_code: i32) -> (r: CliResult)
        ensures
            !r.success,
            r.message@ == message@,
            r.exit_code == exit_code,
    {
        CliResult { success: false, message: message.to_owned(), exit_code }
    }
}

/// Project summary for display; `path` is a path.
#[derive(Debug, Clone)]
pub struct ProjectInfo {
    pub name: String,
    pub path: Option<String>,
    pub timeline_count: usize,
    pub asset_count: usize,
    pub total_frames: i64,
}

/// Kind of media detected from a file.
#[derive(Debug, Clone, Copy, PartialEq, Eq, Structural)]
pub enum MediaType {
    Video,
    Audio,
    Image,
    ImageSequence,
    Unknown,
}

/// The media kind a file extension names (case-sensitive).
pub open spec fn media_type_of(ext: Option<Seq<char>>) -> MediaType {
    match ext {
        Some(e) => if e == "mp4"@ || e == "mov"@ || e == "avi"@ || e == "mkv"@ || e == "webm"@ {
            MediaType::Video
        } else if e == "mp3"@ || e == "wav"@ || e == "aac"@ || e == "flac"@ || e == "ogg"@ {
            MediaType::Audio
        } else if e == "png"@ || e == "jpg"@ || e == "jpeg"@ || e == "gif"@ || e == "bmp"@ || e
            == "tiff"@ {
            MediaType::Image
        } else {
            MediaType::Unknown
        },
        None => MediaType::Unknown,
    }
}

/// The extensions of the original's lists name their kinds: mp4, mov,
/// avi, mkv and webm are video; mp3, wav, aac, flac and ogg audio; png,
/// jpg, jpeg, gif, bmp and tiff images. No extension is unknown.
pub proof fn law_listed_extensions(other: Seq<char>)
    ensures
        media_type_of(Some("mp4"@)) == MediaType::Video,
        media_type_of(Some("mov"@)) == MediaType::Video,
        media_type_of(Some("avi"@)) == MediaType::Video,
        media_type_of(Some("mkv"@)) == MediaType::Video,
        media_type_of(Some("webm"@)) == MediaType::Video,
        media_type_of(Some("mp3"@)) == MediaType::Audio,
        media_type_of(Some("wav"@)) == MediaType::Audio,
        media_type_of(Some("aac"@)) == MediaType::Audio,
        media_type_of(Some("flac"@)) == MediaType::Audio,
        media_type_of(Some("ogg"@)) == MediaType::Audio,
        media_type_of(Some("png"@)) == MediaType::Image,
        media_type_of(Some("jpg"@)) == MediaType::Image,
        media_type_of(Some("jpeg"@)) == MediaType::Image,
        media_type_of(Some("gif"@)) == MediaType::Image,
        media_type_of(Some("bmp"@)) == MediaType::Image,
        media_type_of(Some("tiff"@)) == MediaType::Image,
        media_type_of(None) == MediaType::Unknown,
        other.len() < 3 ==> media_type_of(Some(other)) == MediaType::Unknown,
{
    assert(media_type_of(Some("mp4"@)) == MediaType::Video) by {
        reveal_strlit("mp4");
    }
    assert(media_type_of(Some("mov"@)) == MediaType::Video) by {
        reveal_strlit("mov");
    }
    assert(media_type_of(Some("avi"@)) == MediaType::Video) by {
        reveal_strlit("avi");
    }
    assert(media_type_of(Some("mkv"@)) == MediaType::Video) by {
        reveal_strlit("mkv");
    }
    assert(media_type_of(Some("webm"@)) == MediaType::Video) by {
        reveal_strlit("webm");
    }
    assert(media_type_of(Some("mp3"@)) == MediaType::Audio) by {
        reveal_strlit("mp4");
        reveal_strlit("mov");
        reveal_strlit("avi");
        reveal_strlit("mkv");
        reveal_strlit("webm");
        reveal_strlit("mp3");
        assert("mp3"@[2] != "mp4"@[2]);
        assert("mp3"@[1] != "mov"@[1]);
        assert("mp3"@[0] != "avi"@[0]);
        assert("mp3"@[1] != "mkv"@[1]);
        assert("mp3"@.len() != "webm"@.len());
    }
    assert(media_type_of(Some("wav"@)) == MediaType::Audio) by {
        reveal_strlit("mp4");
        reveal_strlit("mov");
        reveal_strlit("avi");
        reveal_strlit("mkv");
        reveal_strlit("webm");
        reveal_strlit("wav");
        assert("wav"@[0] != "mp4"@[0]);
        assert("wav"@[0] != "mov"@[0]);
        assert("wav"@[0] != "avi"@[0]);
        assert("wav"@[0] != "mkv"@[0]);
        assert("wav"@.len() != "webm"@.len());
    }
    assert(media_type_of(Some("aac"@)) == MediaType::Audio) by {
        reveal_strlit("mp4");
        reveal_strlit("mov");
        reveal_strlit("avi");
        reveal_strlit("mkv");
        reveal_strlit("webm");
        reveal_strlit("aac");
        assert("aac"@[0] != "mp4"@[0]);
        assert("aac"@[0] != "mov"@[0]);
        assert("aac"@[1] != "avi"@[1]);
        assert("aac"@[0] != "mkv"@[0]);
        assert("aac"@.len() != "webm"@.len());
    }
    assert(media_type_of(Some("flac"@)) == MediaType::Audio) by {
        reveal_strlit("mp4");
        reveal_strlit("mov");
        reveal_strlit("avi");
        reveal_strlit("mkv");
        reveal_strlit("webm");
        reveal_strlit("flac");
        assert("flac"@.len() != "mp4"@.len());
        assert("flac"@.len() != "mov"@.len());
        assert("flac"@.len() != "avi"@.len());
        assert("flac"@.len() != "mkv"@.len());
        assert("flac"@[0] != "webm"@[0]);
    }
    assert(media_type_of(Some("ogg"@)) == MediaType::Audio) by {
        reveal_strlit("mp4");
        reveal_strlit("mov");
        reveal_strlit("avi");
        reveal_strlit("mkv");
        reveal_strlit("webm");
        reveal_strlit("ogg");
        assert("ogg"@[0] != "mp4"@[0]);
        assert("ogg"@[0] != "mov"@[0]);
        assert("ogg"@[0] != "avi"@[0]);
        assert("ogg"@[0] != "mkv"@[0]);
        assert("ogg"@.len() != "webm"@.len());
    }
    assert(media_type_of(Some("png"@)) == MediaType::Image) by {
        reveal_strlit("mp4");
        reveal_strlit("mov");
        reveal_strlit("avi");
        reveal_strlit("mkv");
        reveal_strlit("webm");
        reveal_strlit("mp3");
        reveal_strlit("wav");
        reveal_strlit("aac");
        reveal_strlit("flac");
        reveal_strlit("ogg");
        reveal_strlit("png");
        assert("png"@[0] != "mp4"@[0]);
        assert("png"@[0] != "mov"@[0]);
        assert("png"@[0] != "avi"@[0]);
        assert("png"@[0] != "mkv"@[0]);
        assert("png"@.len() != "webm"@.len());
        assert("png"@[0] != "mp3"@[0]);
        assert("png"@[0] != "wav"@[0]);
        assert("png"@[0] != "aac"@[0]);
        assert("png"@.len() != "flac"@.len());
        assert("png"@[0] != "ogg"@[0]);
    }
    assert(media_type_of(Some("jpg"@)) == MediaType::Image) by {
        reveal_strlit("mp4");
        reveal_strlit("mov");
        reveal_strlit("avi");
        reveal_strlit("mkv");
        reveal_strlit("webm");
        reveal_strlit("mp3");
        reveal_strlit("wav");
        reveal_strlit("aac");
        reveal_strlit("flac");
        reveal_strlit("ogg");
        reveal_strlit("jpg");
        assert("jpg"@[0] != "mp4"@[0]);
        assert("jpg"@[0] != "mov"@[0]);
        assert("jpg"@[0] != "avi"@[0]);
        assert("jpg"@[0] != "mkv"@[0]);
        assert("jpg"@.len() != "webm"@.len());
        assert("jpg"@[0] != "mp3"@[0]);
        assert("jpg"@[0] != "wav"@[0]);
        assert("jpg"@[0] != "aac"@[0]);
        assert("jpg"@.len() != "flac"@.len());
        assert("jpg"@[0] != "ogg"@[0]);
    }
    assert(media_type_of(Some("jpeg"@)) == MediaType::Image) by {
        reveal_strlit("mp4");
        reveal_strlit("mov");
        reveal_strlit("avi");
        reveal_strlit("mkv");
        reveal_strlit("webm");
        reveal_strlit("mp3");
        reveal_strlit("wav");
        reveal_strlit("aac");
        reveal_strlit("flac");
        reveal_strlit("ogg");
        reveal_strlit("jpeg");
        assert("jpeg"@.len() != "mp4"@.len());
        assert("jpeg"@.len() != "mov"@.len());
        assert("jpeg"@.len() != "avi"@.len());
        assert("jpeg"@.len() != "mkv"@.len());
        assert("jpeg"@[0] != "webm"@[0]);
        assert("jpeg"@.len() != "mp3"@.len());
        assert("jpeg"@.len() != "wav"@.len());
        assert("jpeg"@.len() != "aac"@.len());
        assert("jpeg"@[0] != "flac"@[0]);
        assert("jpeg"@.len() != "ogg"@.len());
    }
    assert(media_type_of(Some("gif"@)) == MediaType::Image) by {
        reveal_strlit("mp4");
        reveal_strlit("mov");
        reveal_strlit("avi");
        reveal_strlit("mkv");
        reveal_strlit("webm");
        reveal_strlit("mp3");
        reveal_strlit("wav");
        reveal_strlit("aac");
        reveal_strlit("flac");
        reveal_strlit("ogg");
        reveal_strlit("gif");
        assert("gif"@[0] != "mp4"@[0]);
        assert("gif"@[0] != "mov"@[0]);
        assert("gif"@[0] != "avi"@[0]);
        assert("gif"@[0] != "mkv"@[0]);
        assert("gif"@.len() != "webm"@.len());
        assert("gif"@[0] != "mp3"@[0]);
        assert("gif"@[0] != "wav"@[0]);
        assert("gif"@[0] != "aac"@[0]);
        assert("gif"@.len() != "flac"@.len());
        assert("gif"@[0] != "ogg"@[0]);
    }
    assert(media_type_of(Some("bmp"@)) == MediaType::Image) by {
        reveal_strlit("mp4");
        reveal_strlit("mov");
        reveal_strlit("avi");
        reveal_strlit("mkv");
        reveal_strlit("webm");
        reveal_strlit("mp3");
        reveal_strlit("wav");
        reveal_strlit("aac");
        reveal_strlit("flac");
        reveal_strlit("ogg");
        reveal_strlit("bmp");
        assert("bmp"@[0] != "mp4"@[0]);
        assert("bmp"@[0] != "mov"@[0]);
        assert("bmp"@[0] != "avi"@[0]);
        assert("bmp"@[0] != "mkv"@[0]);
        assert("bmp"@.len() != "webm"@.len());
        assert("bmp"@[0] != "mp3"@[0]);
        assert("bmp"@[0] != "wav"@[0]);
        assert("bmp"@[0] != "aac"@[0]);
        assert("bmp"@.len() != "flac"@.len());
        assert("bmp"@[0] != "ogg"@[0]);
    }
    assert(media_type_of(Some("tiff"@)) == MediaType::Image) by {
        reveal_strlit("mp4");
        reveal_strlit("mov");
        reveal_strlit("avi");
        reveal_strlit("mkv");
        reveal_strlit("webm");
        reveal_strlit("mp3");
        reveal_strlit("wav");
        reveal_strlit("aac");
        reveal_strlit("flac");
        reveal_strlit("ogg");
        reveal_strlit("tiff");
        assert("tiff"@.len() != "mp4"@.len());
        assert("tiff"@.len() != "mov"@.len());
        assert("tiff"@.len() != "avi"@.len());
        assert("tiff"@.len() != "mkv"@.len());
        assert("tiff"@[0] != "webm"@[0]);
        assert("tiff"@.len() != "mp3"@.len());
        assert("tiff"@.len() != "wav"@.len());
        assert("tiff"@.len() != "aac"@.len());
        assert("tiff"@[0] != "flac"@[0]);
        assert("tiff"@.len() != "ogg"@.len());
    }
    assert(other.len() < 3 ==> media_type_of(Some(other)) == MediaType::Unknown) by {
        reveal_strlit("mp4");
        reveal_strlit("mov");
        reveal_strlit("avi");
        reveal_strlit("mkv");
        reveal_strlit("webm");
        reveal_strlit("mp3");
        reveal_strlit("wav");
        reveal_strlit("aac");
        reveal_strlit("flac");
        reveal_strlit("ogg");
        reveal_strlit("png");
        reveal_strlit("jpg");
        reveal_strlit("jpeg");
        reveal_strlit("gif");
        reveal_strlit("bmp");
        reveal_strlit("tiff");
    }
}

/// The media kind of a file with extension `ext` (`None`: no extension, or
/// one that is not text).
pub fn media_type_for_extension(ext: Option<&str>) -> (r: MediaType)
    ensures
        r == media_type_of(
            match ext {
                Some(e) => Some(e@),
                None => None,
            },
        ),
{
    match ext {
        None => MediaType::Unknown,
        Some(e) => {
            if str_is(e, "mp4") || str_is(e, "mov") || str_is(e, "avi") || str_is(e, "mkv")
                || str_is(e, "webm") {
                MediaType::Video
            } else if str_is(e, "mp3") || str_is(e, "wav") || str_is(e, "aac") || str_is(e, "flac")
                || str_is(e, "ogg") {
                MediaType::Audio
            } else if str_is(e, "png") || str_is(e, "jpg") || str_is(e, "jpeg") || str_is(e, "gif")
                || str_is(e, "bmp") || str_is(e, "tiff") {
                MediaType::Image
            } else {
                MediaType::Unknown
            }
        },
    }
}

/// `x / unit` written with two decimals, rounded to nearest, halves to even.
pub open spec fn two_decimals(x: nat, unit: nat) -> Seq<char> {
    let c = round_half_even_div(x * 100, unit);
    decimal(c / 100) + seq!['.'] + padded(c % 100, 2)
}

/// `500 bytes`, `1.50 KB`, `2.00 MB`, `1.00 GB`: binary units, two
/// decimals above 1 KB.
pub open spec fn file_size_text(bytes: nat) -> Seq<char> {
    if bytes >= 0x4000_0000 {
        two_decimals(nearest_double(bytes), 0x4000_0000) + " GB"@
    } else if bytes >= 0x10_0000 {
        two_decimals(bytes, 0x10_0000) + " MB"@
    } else if bytes >= 0x400 {
        two_decimals(bytes, 0x400) + " KB"@
    } else {
        decimal(bytes) + " bytes"@
    }
}

/// Appends `x / unit` with two decimals (see `two_decimals`).
fn push_two_decimals(s: &mut String, x: u128, unit: u128)
    requires
        unit >= 1024,
        x <= 0x2_0000_0000_0000_0000,
    ensures
        final(s)@ == old(s)@ + two_decimals(x as nat, unit as nat),
{
    let c = round_half_even_u128(x * 100, unit);
    assert(c / 100 < 0x1_0000_0000_0000_0000) by (nonlinear_arith)
        requires
            c == round_half_even_div((x * 100) as nat, unit as nat),
            unit >= 1024,
            x <= 0x2_0000_0000_0000_0000,
    ;
    push_decimal(s, (c / 100) as u64);
    push_str(s, ".");
    push_padded(s, (c % 100) as u64, 2);
    proof {
        reveal_strlit(".");
    }
}

/// Human-readable file size (see `file_size_text`).
pub fn format_file_size(bytes: u64) -> (s: String)
    ensures
        s@ == file_size_text(bytes as nat),
{
    let mut s = String::new();
    if bytes >= 0x4000_0000 {
        let v = nearest_double_u64(bytes);
        push_two_decimals(&mut s, v, 0x4000_0000);
        push_str(&mut s, " GB");
    } else if bytes >= 0x10_0000 {
        push_two_decimals(&mut s, bytes as u128, 0x10_0000);
        push_str(&mut s, " MB");
    } else if bytes >= 0x400 {
        push_two_decimals(&mut s, bytes as u128, 0x400);
        push_str(&mut s, " KB");
    } else {
        push_decimal(&mut s, bytes);
        push_str(&mut s, " bytes");
    }
    s
}

/// `M:SS` below an hour, `H:MM:SS` from an hour on.
pub open spec fn duration_text(ms: nat) -> Seq<char> {
    let seconds = ms / 1000;
    let minutes = seconds / 60;
    let hours = minutes / 60;
    if hours > 0 {
        decimal(hours) + seq![':'] + padded(minutes % 60, 2) + seq![':'] + padded(seconds % 60, 2)
    } else {
        decimal(minutes) + seq![':'] + padded(seconds % 60, 2)
    }
}

/// Human-readable duration of `ms` milliseconds (see `duration_text`).
pub fn format_duration(ms: u64) -> (s: String)
    ensures
        s@ == duration_text(ms as nat),
{
    let seconds = ms / 1000;
    let minutes = seconds / 60;
    let hours = minutes / 60;
    let mut s = String::new();
    proof {
        reveal_strlit(":");
    }
    if hours > 0 {
        push_decimal(&mut s, hours);
        push_str(&mut s, ":");
        push_padded(&mut s, minutes % 60, 2);
        push_str(&mut s, ":");
        push_padded(&mut s, seconds % 60, 2);
    } else {
        push_decimal(&mut s, minutes);
        push_str(&mut s, ":");
        push_padded(&mut s, seconds % 60, 2);
    }
    proof {
        assert(s@ =~= duration_text(ms as nat));
    }
    s
}

/// Version string reported by `info`.
pub fn rustc_version() -> (r: &'static str)
    ensures
        r@ == "1.75.0 (estimated)"@,
{
    "1.75.0 (estimated)"
}

/// Export containers the command accepts.
pub open spec fn valid_export_format(f: Seq<char>) -> bool {
    f == "mp4"@ || f == "webm"@ || f == "mov"@ || f == "png-sequence"@ || f == "jpg-sequence"@
}

/// Quality presets the command accepts.
pub open spec fn valid_export_quality(q: Seq<char>) -> bool {
    q == "draft"@ || q == "preview"@ || q == "standard"@ || q == "high"@ || q == "master"@
}

/// Checks the `export` arguments: `None` when both are valid, otherwise the
/// failure (exit code 1) naming the first bad argument and the valid values.
pub fn check_export_args(format: &str, quality: &str) -> (r: Option<CliResult>)
    ensures
        (match r {
            None => valid_export_format(format@) && valid_export_quality(quality@),
            Some(res) => !res.success && res.exit_code == 1 && if !valid_export_format(format@) {
                res.message@ == "Invalid format '"@ + format@
                    + "'. Valid formats: mp4, webm, mov, png-sequence, jpg-sequence"@
            } else {
                !valid_export_quality(quality@) && res.message@ == "Invalid quality '"@ + quality@
                    + "'. Valid qualities: draft, preview, standard, high, master"@
            },
        }),
{
    let format_ok = str_is(format, "mp4") || str_is(format, "webm") || str_is(format, "mov")
        || str_is(format, "png-sequence") || str_is(format, "jpg-sequence");
    if !format_ok {
        let mut m = String::new();
        push_str(&mut m, "Invalid format '");
        push_str(&mut m, format);
        push_str(&mut m, "'. Valid formats: mp4, webm, mov, png-sequence, jpg-sequence");
        return Some(CliResult { success: false, message: m, exit_code: 1 });
    }
    let quality_ok = str_is(quality, "draft") || str_is(quality, "preview") || str_is(
        quality,
        "standard",
    ) || str_is(quality, "high") || str_is(quality, "master");
    if !quality_ok {
        let mut m = String::new();
        push_str(&mut m, "Invalid quality '");
        push_str(&mut m, quality);
        push_str(&mut m, "'. Valid qualities: draft, preview, standard, high, master");
        return Some(CliResult { success: false, message: m, exit_code: 1 });
    }
    None
}

/// Which parts the `list` command shows: `timelines`, `assets` or `all`;
/// anything else is a failure (exit code 1).
pub fn list_selection(what: &str) -> (r: Result<(bool, bool), CliResult>)
    ensures
        (match r {
            Ok((timelines, assets)) => timelines == (what@ == "timelines"@ || what@ == "all"@)
                && assets == (what@ == "assets"@ || what@ == "all"@) && (timelines || assets),
            Err(res) => what@ != "timelines"@ && what@ != "assets"@ && what@ != "all"@
                && !res.success && res.exit_code == 1 && res.message@ == "Invalid list type '"@
                + what@ + "'. Use: timelines, assets, or all"@,
        }),
{
    let all = str_is(what, "all");
    let show_timelines = str_is(what, "timelines") || all;
    let show_assets = str_is(what, "assets") || all;
    if !show_timelines && !show_assets {
        let mut m = String::new();
        push_str(&mut m, "Invalid list type '");
        push_str(&mut m, what);
        push_str(&mut m, "'. Use: timelines, assets, or all");
        return Err(CliResult { success: false, message: m, exit_code: 1 });
    }
    Ok((show_timelines, show_assets))
}

/// Outcome of `analyze` after `error_count` failures.
pub fn analysis_result(error_count: u64) -> (r: CliResult)
    ensures
        error_count > 0 ==> !r.success && r.exit_code == 1 && r.message@
            == "Analysis completed with "@ + decimal(error_count as nat) + " error(s)"@,
        error_count == 0 ==> r.success && r.exit_code == 0 && r.message@
            == "Analysis completed successfully"@,
{
    if error_count > 0 {
        let mut m = String::new();
        push_str(&mut m, "Analysis completed with ");
        push_decimal(&mut m, error_count);
        push_str(&mut m, " error(s)");
        CliResult { success: false, message: m, exit_code: 1 }
    } else {
        CliResult::success("Analysis completed successfully")
    }
}

} // verus!
