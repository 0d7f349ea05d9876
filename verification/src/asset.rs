//! Media assets, clips, tracks and project settings: the plain parts of the
//! entities and the names under which their kinds and states are stored.
use crate::text::{
    chars_of, decimal, has_prefix, lemma_decimal_digits, parse_u8_from, parse_u8_spec,
    push_all, push_decimal, push_str, starts_with_str, str_is,
};
use crate::value_objects::{Fps, Resolution};
use crate::desktop::last_component;
use vstd::prelude::*;

verus! {

/// Kind of media an asset holds.
#[derive(Debug, Clone, Copy, PartialEq, Eq, Structural)]
pub enum AssetType {
    Video,
    Audio,
    Image,
    Sequence,
}

/// Where an asset is in the import pipeline.
#[derive(Debug, Clone, PartialEq, Eq)]
pub enum AssetStatus {
    Pending,
    Analyzing,
    Ready,
    ProxyGenerating { progress: u8 },
    ProxyReady,
    Error(String),
    Offline,
}

/// An asset state with its message as a character sequence.
pub enum AssetStatusView {
    Pending,
    Analyzing,
    Ready,
    ProxyGenerating { progress: u8 },
    ProxyReady,
    Error(Seq<char>),
    Offline,
}

impl View for AssetStatus {
    type V = AssetStatusView;

    open spec fn view(&self) -> AssetStatusView {
        match self {
            AssetStatus::Pending => AssetStatusView::Pending,
            AssetStatus::Analyzing => AssetStatusView::Analyzing,
            AssetStatus::Ready => AssetStatusView::Ready,
            AssetStatus::ProxyGenerating { progress } => AssetStatusView::ProxyGenerating {
                progress: *progress,
            },
            AssetStatus::ProxyReady => AssetStatusView::ProxyReady,
            AssetStatus::Error(e) => AssetStatusView::Error(e@),
            AssetStatus::Offline => AssetStatusView::Offline,
        }
    }
}

impl AssetStatus {
    /// The asset can be placed on a timeline.
    pub fn is_usable(&self) -> (r: bool)
        ensures
            r == (self@ is Ready || self@ is ProxyReady),
    {
        match self {
            AssetStatus::Ready | AssetStatus::ProxyReady => true,
            _ => false,
        }
    }
}

/// Stored text of an asset state.
pub open spec fn asset_status_text(s: AssetStatusView) -> Seq<char> {
    match s {
        AssetStatusView::Pending => "pending"@,
        AssetStatusView::Analyzing => "analyzing"@,
        AssetStatusView::Ready => "ready"@,
        AssetStatusView::ProxyGenerating { progress } => "proxy_generating:"@ + decimal(
            progress as nat,
        ),
        AssetStatusView::ProxyReady => "proxy_ready"@,
        AssetStatusView::Error(e) => "error:"@ + e,
        AssetStatusView::Offline => "offline"@,
    }
}

/// The asset state a stored text denotes; unreadable progress counts as 0
/// and unknown text as `Pending`.
pub open spec fn asset_status_from_text(s: Seq<char>) -> AssetStatusView {
    if s == "pending"@ {
        AssetStatusView::Pending
    } else if s == "analyzing"@ {
        AssetStatusView::Analyzing
    } else if s == "ready"@ {
        AssetStatusView::Ready
    } else if s == "proxy_ready"@ {
        AssetStatusView::ProxyReady
    } else if s == "offline"@ {
        AssetStatusView::Offline
    } else if has_prefix(s, "proxy_generating:"@) {
        AssetStatusView::ProxyGenerating {
            progress: match parse_u8_spec(s.skip(17)) {
                Some(p) => p,
                None => 0,
            },
        }
    } else if has_prefix(s, "error:"@) {
        AssetStatusView::Error(s.skip(6))
    } else {
        AssetStatusView::Pending
    }
}

/// A `String` of `chars[from..]`.
fn string_from(chars: &Vec<char>, from: usize) -> (s: String)
    requires
        from <= chars.len(),
    ensures
        s@ == chars@.skip(from as int),
{
    let mut tail: Vec<char> = Vec::new();
    let mut i = from;
    while i < chars.len()
        invariant
            from <= i <= chars.len(),
            tail@ == chars@.subrange(from as int, i as int),
        decreases chars.len() - i,
    {
        tail.push(chars[i]);
        i = i + 1;
        assert(tail@ =~= chars@.subrange(from as int, i as int));
    }
    let mut s = String::new();
    push_all(&mut s, &tail);
    assert(s@ =~= chars@.skip(from as int));
    s
}

/// Stored text of an asset state.
pub fn status_to_string(status: &AssetStatus) -> (s: String)
    ensures
        s@ == asset_status_text(status@),
{
    let mut s = String::new();
    match status {
        AssetStatus::Pending => push_str(&mut s, "pending"),
        AssetStatus::Analyzing => push_str(&mut s, "analyzing"),
        AssetStatus::Ready => push_str(&mut s, "ready"),
        AssetStatus::ProxyGenerating { progress } => {
            push_str(&mut s, "proxy_generating:");
            push_decimal(&mut s, *progress as u64);
        },
        AssetStatus::ProxyReady => push_str(&mut s, "proxy_ready"),
        AssetStatus::Error(e) => {
            push_str(&mut s, "error:");
            push_str(&mut s, e.as_str());
        },
        AssetStatus::Offline => push_str(&mut s, "offline"),
    }
    s
}

/// The asset state a stored text denotes.
pub fn string_to_status(text: &str) -> (r: AssetStatus)
    ensures
        r@ == asset_status_from_text(text@),
{
    if str_is(text, "pending") {
        AssetStatus::Pending
    } else if str_is(text, "analyzing") {
        AssetStatus::Analyzing
    } else if str_is(text, "ready") {
        AssetStatus::Ready
    } else if str_is(text, "proxy_ready") {
        AssetStatus::ProxyReady
    } else if str_is(text, "offline") {
        AssetStatus::Offline
    } else {
        let chars = chars_of(text);
        if starts_with_str(&chars, "proxy_generating:") {
            proof {
                reveal_strlit("proxy_generating:");
            }
            let progress = match parse_u8_from(&chars, 17) {
                Some(p) => p,
                None => 0,
            };
            AssetStatus::ProxyGenerating { progress }
        } else if starts_with_str(&chars, "error:") {
            proof {
                reveal_strlit("error:");
            }
            AssetStatus::Error(string_from(&chars, 6))
        } else {
            AssetStatus::Pending
        }
    }
}

/// Reading back the stored text of any asset state gives the same state.
pub proof fn law_asset_status_roundtrip(s: AssetStatusView)
    ensures
        asset_status_from_text(asset_status_text(s)) == s,
{
    reveal_strlit("pending");
    reveal_strlit("analyzing");
    reveal_strlit("ready");
    reveal_strlit("proxy_ready");
    reveal_strlit("offline");
    reveal_strlit("proxy_generating:");
    reveal_strlit("error:");
    let t = asset_status_text(s);
    match s {
        AssetStatusView::ProxyGenerating { progress } => {
            let d = decimal(progress as nat);
            lemma_decimal_digits(progress as nat);
            assert(t.len() == 17 + d.len());
            assert(t.skip(17) =~= d);
            assert(t.subrange(0, 17) =~= "proxy_generating:"@);
            assert("pending"@.len() == 7 && "analyzing"@.len() == 9 && "ready"@.len() == 5);
            assert("proxy_ready"@.len() == 11 && "offline"@.len() == 7);
            assert(d.len() > 0 && d[0] != '+') by {
                assert(crate::text::char_digit(d[0]) is Some);
            }
            assert(d =~= (if d.len() > 0 && d[0] == '+' {
                d.skip(1)
            } else {
                d
            }));
        },
        AssetStatusView::Error(e) => {
            assert(t.skip(6) =~= e);
            assert(t.subrange(0, 6) =~= "error:"@);
            assert(t[0] == 'e' && t[5] == ':');
            assert(t.len() >= 6);
            assert(t != "pending"@ && t != "analyzing"@ && t != "ready"@ && t != "proxy_ready"@
                && t != "offline"@) by {
                assert(t[5] == ':');
            }
        },
        _ => {
            assert("pending"@.len() == 7 && "analyzing"@.len() == 9 && "ready"@.len() == 5);
            assert("proxy_ready"@.len() == 11 && "offline"@.len() == 7);
            assert("pending"@[0] == 'p' && "offline"@[0] == 'o');
        },
    }
}

/// Stored name of an asset kind.
pub open spec fn asset_type_text(t: AssetType) -> Seq<char> {
    match t {
        AssetType::Video => "video"@,
        AssetType::Audio => "audio"@,
        AssetType::Image => "image"@,
        AssetType::Sequence => "sequence"@,
    }
}

pub fn asset_type_to_string(t: &AssetType) -> (r: &'static str)
    ensures
        r@ == asset_type_text(*t),
{
    match t {
        AssetType::Video => "video",
        AssetType::Audio => "audio",
        AssetType::Image => "image",
        AssetType::Sequence => "sequence",
    }
}

/// The asset kind with the given stored name; any other text is refused
/// with `Unknown asset type: <text>`.
pub fn string_to_asset_type(s: &str) -> (r: Result<AssetType, String>)
    ensures
        (match r {
            Ok(t) => asset_type_text(t) == s@,
            Err(msg) => (forall|t: AssetType| asset_type_text(t) != s@) && msg@
                == "Unknown asset type: "@ + s@,
        }),
{
    if str_is(s, "video") {
        Ok(AssetType::Video)
    } else if str_is(s, "audio") {
        Ok(AssetType::Audio)
    } else if str_is(s, "image") {
        Ok(AssetType::Image)
    } else if str_is(s, "sequence") {
        Ok(AssetType::Sequence)
    } else {
        let mut msg = String::new();
        push_str(&mut msg, "Unknown asset type: ");
        push_str(&mut msg, s);
        assert forall|t: AssetType| asset_type_text(t) != s@ by {
            match t {
                AssetType::Video => {},
                AssetType::Audio => {},
                AssetType::Image => {},
                AssetType::Sequence => {},
            }
        }
        Err(msg)
    }
}

/// Reading back the stored name of any asset kind gives the same kind.
pub proof fn law_asset_type_roundtrip(t: AssetType, u: AssetType)
    ensures
        asset_type_text(t) == asset_type_text(u) ==> t == u,
{
    reveal_strlit("video");
    reveal_strlit("audio");
    reveal_strlit("image");
    reveal_strlit("sequence");
    assert("video"@[0] == 'v' && "audio"@[0] == 'a' && "image"@[0] == 'i');
    assert("sequence"@.len() == 8 && "video"@.len() == 5);
}

/// Codec description of a stream.
#[derive(Debug, Clone, PartialEq)]
pub struct CodecInfo {
    pub name: String,
    pub profile: Option<String>,
    pub bit_depth: Option<u8>,
    pub chroma_subsampling: Option<String>,
}

/// An audio stream of a media file.
#[derive(Debug, Clone, PartialEq)]
pub struct AudioStream {
    pub codec: CodecInfo,
    pub sample_rate: u32,
    pub channels: u8,
    pub bit_depth: Option<u8>,
    pub duration_samples: u64,
}

/// A video stream of a media file.
#[derive(Debug, Clone, PartialEq)]
pub struct VideoStream {
    pub codec: CodecInfo,
    pub resolution: Resolution,
    pub fps: Fps,
    pub duration_frames: i64,
    pub pixel_format: String,
    pub color_space: Option<String>,
    pub hdr: bool,
}

/// What probing a media file found.
#[derive(Debug, Clone, PartialEq)]
pub struct MediaInfo {
    pub container: String,
    pub duration_ms: u64,
    pub file_size: u64,
    pub video_streams: Vec<VideoStream>,
    pub audio_streams: Vec<AudioStream>,
}

impl MediaInfo {
    /// The first video stream, if any.
    pub fn primary_video(&self) -> (r: Option<&VideoStream>)
        ensures
            r == if self.video_streams@.len() > 0 {
                Some(&self.video_streams@[0])
            } else {
                None
            },
    {
        if self.video_streams.len() > 0 {
            Some(&self.video_streams[0])
        } else {
            None
        }
    }

    /// The first audio stream, if any.
    pub fn primary_audio(&self) -> (r: Option<&AudioStream>)
        ensures
            r == if self.audio_streams@.len() > 0 {
                Some(&self.audio_streams@[0])
            } else {
                None
            },
    {
        if self.audio_streams.len() > 0 {
            Some(&self.audio_streams[0])
        } else {
            None
        }
    }

    /// The frame rate of the first video stream.
    pub fn fps(&self) -> (r: Option<Fps>)
        ensures
            r == if self.video_streams@.len() > 0 {
                Some(self.video_streams@[0].fps)
            } else {
                None
            },
    {
        match self.primary_video() {
            Some(v) => Some(v.fps),
            None => None,
        }
    }

    /// The resolution of the first video stream.
    pub fn resolution(&self) -> (r: Option<Resolution>)
        ensures
            r == if self.video_streams@.len() > 0 {
                Some(self.video_streams@[0].resolution)
            } else {
                None
            },
    {
        match self.primary_video() {
            Some(v) => Some(v.resolution),
            None => None,
        }
    }
}

/// A proxy (lighter copy for editing) of an asset; `path` is a file path
/// and `created_at_ms` Unix milliseconds.
#[derive(Debug, Clone, PartialEq)]
pub struct ProxyInfo {
    pub path: String,
    pub resolution: Resolution,
    pub codec: String,
    pub created_at_ms: i64,
}

/// A media file of a project. `id` is its UUID, `path` a file path, and
/// the times Unix milliseconds.
#[derive(Debug, Clone, PartialEq)]
pub struct Asset {
    pub id: u128,
    pub name: String,
    pub path: String,
    pub asset_type: AssetType,
    pub status: AssetStatus,
    pub media_info: Option<MediaInfo>,
    pub proxy: Option<ProxyInfo>,
    pub imported_at_ms: i64,
    pub modified_at_ms: i64,
    pub tags: Vec<String>,
    pub notes: Option<String>,
    pub rating: Option<u8>,
    pub markers: Vec<AssetMarker>,
}

/// Unix milliseconds now, from chrono's `Utc::now()`. Nothing is promised
/// of the value: it is the time. Like `Utc::now`, it panics only when the
/// system clock reads before 1970, a state of the machine, not an input.
#[verifier::external_body]
fn utc_now_millis() -> i64 {
    chrono::Utc::now().timestamp_millis()
}

/// A path whose reading does not depend on the platform: no `\`, no `:`,
/// and not starting with `//` (where Windows reads prefixes and other
/// separators).
pub open spec fn is_plain_path(p: Seq<char>) -> bool {
    &&& forall|i: int| 0 <= i < p.len() ==> #[trigger] p[i] != '\\' && p[i] != ':'
    &&& !(p.len() >= 2 && p[0] == '/' && p[1] == '/')
}

/// A plain path that names a file: what follows its last `/` is neither
/// empty, `.` nor `..`.
pub open spec fn plain_named(p: Seq<char>) -> bool {
    &&& is_plain_path(p)
    &&& last_component(p).len() > 0
    &&& last_component(p) != seq!['.']
    &&& last_component(p) != seq!['.', '.']
}

/// The last component of a path as `std::path::Path::file_name` reads it.
/// A name found is a non-empty stretch of the path. On a plain path that
/// names a file every platform finds a name: the text after the last `/`;
/// on any other plain path none is found. Paths with `\`, `:` or a leading
/// `//` are read differently by each platform, and nothing more is said of
/// them.
#[verifier::external_body]
fn path_file_name(path: &str) -> (r: Option<String>)
    ensures
        match r {
            Some(n) => n@.len() > 0 && (exists|i: int|
                0 <= i && i + n@.len() <= path@.len() && #[trigger] path@.subrange(i, i + n@.len())
                    == n@) && (plain_named(path@) ==> n@ == last_component(path@)),
            None => !plain_named(path@),
        },
{
    std::path::Path::new(path).file_name().and_then(|n| n.to_str()).map(|n| n.to_string())
}

impl Asset {
    /// A newly imported asset with the given identifier, pending analysis:
    /// named `name`, or `Unknown` without one, imported and modified at
    /// `now_ms`.
    pub fn imported(id: u128, name: Option<String>, path: String, asset_type: AssetType, now_ms: i64) -> (r: Asset)
        ensures
            r.id == id,
            r.name@ == match name {
                Some(n) => n@,
                None => "Unknown"@,
            },
            r.path@ == path@,
            r.asset_type == asset_type,
            r.status@ is Pending,
            r.media_info is None,
            r.proxy is None,
            r.imported_at_ms == now_ms,
            r.modified_at_ms == now_ms,
            r.tags@.len() == 0,
            r.notes is None,
            r.rating is None,
            r.markers@.len() == 0,
    {
        let name = match name {
            Some(n) => n,
            None => {
                let mut u = String::new();
                push_str(&mut u, "Unknown");
                assert(u@ =~= "Unknown"@);
                u
            },
        };
        Asset {
            id,
            name,
            path,
            asset_type,
            status: AssetStatus::Pending,
            media_info: None,
            proxy: None,
            imported_at_ms: now_ms,
            modified_at_ms: now_ms,
            tags: Vec::new(),
            notes: None,
            rating: None,
            markers: Vec::new(),
        }
    }

    /// A newly imported asset, pending analysis: a fresh UUID, named after
    /// the path's last component (`Unknown` when it has none), imported and
    /// modified now.
    pub fn new(path: String, asset_type: AssetType) -> (r: Asset)
        ensures
            crate::ids::is_v4_uuid(r.id),
            r.path@ == path@,
            r.name@ == "Unknown"@ || (r.name@.len() > 0 && exists|i: int|
                0 <= i && i + r.name@.len() <= path@.len() && #[trigger] path@.subrange(
                    i,
                    i + r.name@.len(),
                ) == r.name@),
            plain_named(path@) ==> r.name@ == last_component(path@),
            r.asset_type == asset_type,
            r.status@ is Pending,
            r.media_info is None,
            r.proxy is None,
            r.imported_at_ms == r.modified_at_ms,
            r.tags@.len() == 0,
            r.notes is None,
            r.rating is None,
            r.markers@.len() == 0,
    {
        let name = path_file_name(path.as_str());
        let now = utc_now_millis();
        Asset::imported(crate::ids::new_v4_uuid(), name, path, asset_type, now)
    }

    /// The asset with its probed media information: ready, modified at
    /// `now_ms`.
    pub fn with_media_info_at(self, info: MediaInfo, now_ms: i64) -> (r: Asset)
        ensures
            r.media_info == Some(info),
            r.status@ is Ready,
            r.modified_at_ms == now_ms,
            r.id == self.id && r.name == self.name && r.path == self.path && r.asset_type
                == self.asset_type && r.proxy == self.proxy && r.imported_at_ms
                == self.imported_at_ms && r.tags == self.tags && r.notes == self.notes
                && r.rating == self.rating && r.markers == self.markers,
    {
        Asset { media_info: Some(info), status: AssetStatus::Ready, modified_at_ms: now_ms, ..self }
    }

    /// The asset with its probed media information: ready, modified now.
    pub fn with_media_info(self, info: MediaInfo) -> (r: Asset)
        ensures
            r.media_info == Some(info),
            r.status@ is Ready,
            r.id == self.id && r.name == self.name && r.path == self.path && r.asset_type
                == self.asset_type && r.proxy == self.proxy && r.imported_at_ms
                == self.imported_at_ms && r.tags == self.tags && r.notes == self.notes
                && r.rating == self.rating && r.markers == self.markers,
    {
        let now = utc_now_millis();
        self.with_media_info_at(info, now)
    }

    /// The source frames of the asset: from 0 to the length of its first
    /// video stream, when it has probed video.
    pub fn source_range(&self) -> (r: Option<crate::value_objects::FrameRange>)
        ensures
            r == match self.media_info {
                Some(info) => if info.video_streams@.len() > 0 {
                    Some(
                        crate::value_objects::FrameRange {
                            start: crate::value_objects::Frame(0),
                            end: crate::value_objects::Frame(info.video_streams@[0].duration_frames),
                        },
                    )
                } else {
                    None
                },
                None => None,
            },
    {
        match &self.media_info {
            Some(info) => match info.primary_video() {
                Some(v) => Some(crate::value_objects::FrameRange::new_unchecked(0, v.duration_frames)),
                None => None,
            },
            None => None,
        }
    }

    /// The file to read for editing: the proxy once it is ready, otherwise
    /// the source file itself.
    pub fn effective_path(&self) -> (r: &String)
        ensures
            r == match self.proxy {
                Some(p) => if self.status@ is ProxyReady {
                    &p.path
                } else {
                    &self.path
                },
                None => &self.path,
            },
    {
        match (&self.proxy, &self.status) {
            (Some(proxy), AssetStatus::ProxyReady) => &proxy.path,
            _ => &self.path,
        }
    }

    /// The file went missing.
    pub fn is_offline(&self) -> (r: bool)
        ensures
            r == (self.status@ is Offline),
    {
        match self.status {
            AssetStatus::Offline => true,
            _ => false,
        }
    }
}

/// A labelled point in an asset.
#[derive(Debug, Clone, PartialEq)]
pub struct AssetMarker {
    pub frame: i64,
    pub label: String,
    pub color: Option<String>,
}

/// Kind of a clip on the timeline.
#[derive(Debug, Clone, Copy, PartialEq, Eq, Structural)]
pub enum ClipType {
    Video,
    Audio,
    Title,
    Generator,
    Adjustment,
    Gap,
}

/// Stored name of a clip kind.
pub open spec fn clip_type_text(t: ClipType) -> Seq<char> {
    match t {
        ClipType::Video => "video"@,
        ClipType::Audio => "audio"@,
        ClipType::Title => "title"@,
        ClipType::Generator => "generator"@,
        ClipType::Adjustment => "adjustment"@,
        ClipType::Gap => "gap"@,
    }
}

pub fn clip_type_to_string(t: &ClipType) -> (r: &'static str)
    ensures
        r@ == clip_type_text(*t),
{
    match t {
        ClipType::Video => "video",
        ClipType::Audio => "audio",
        ClipType::Title => "title",
        ClipType::Generator => "generator",
        ClipType::Adjustment => "adjustment",
        ClipType::Gap => "gap",
    }
}

/// The clip kind with the given stored name; any other text is refused with
/// `Unknown clip type: <text>`.
pub fn string_to_clip_type(s: &str) -> (r: Result<ClipType, String>)
    ensures
        (match r {
            Ok(t) => clip_type_text(t) == s@,
            Err(msg) => (forall|t: ClipType| clip_type_text(t) != s@) && msg@
                == "Unknown clip type: "@ + s@,
        }),
{
    if str_is(s, "video") {
        Ok(ClipType::Video)
    } else if str_is(s, "audio") {
        Ok(ClipType::Audio)
    } else if str_is(s, "title") {
        Ok(ClipType::Title)
    } else if str_is(s, "generator") {
        Ok(ClipType::Generator)
    } else if str_is(s, "adjustment") {
        Ok(ClipType::Adjustment)
    } else if str_is(s, "gap") {
        Ok(ClipType::Gap)
    } else {
        let mut msg = String::new();
        push_str(&mut msg, "Unknown clip type: ");
        push_str(&mut msg, s);
        assert forall|t: ClipType| clip_type_text(t) != s@ by {
            match t {
                ClipType::Video => {},
                ClipType::Audio => {},
                ClipType::Title => {},
                ClipType::Generator => {},
                ClipType::Adjustment => {},
                ClipType::Gap => {},
            }
        }
        Err(msg)
    }
}

/// Different clip kinds have different stored names.
pub proof fn law_clip_type_names_distinct(t: ClipType, u: ClipType)
    ensures
        clip_type_text(t) == clip_type_text(u) ==> t == u,
{
    reveal_strlit("video");
    reveal_strlit("audio");
    reveal_strlit("title");
    reveal_strlit("generator");
    reveal_strlit("adjustment");
    reveal_strlit("gap");
    assert("video"@.len() == 5 && "audio"@.len() == 5 && "title"@.len() == 5);
    assert("video"@[0] == 'v' && "audio"@[0] == 'a' && "title"@[0] == 't');
    assert("generator"@.len() == 9 && "adjustment"@.len() == 10 && "gap"@.len() == 3);
}

/// Kind of a timeline track.
#[derive(Debug, Clone, Copy, PartialEq, Eq, Structural)]
pub enum TrackType {
    Video,
    Audio,
}

/// Format of a timeline.
#[derive(Debug, Clone, PartialEq)]
pub struct TimelineSettings {
    pub fps: Fps,
    pub resolution: Resolution,
    pub sample_rate: u32,
    pub audio_channels: u8,
}

impl Default for TimelineSettings {
    /// 24 fps, 1920 x 1080, 48 kHz stereo.
    fn default() -> (r: TimelineSettings)
        ensures
            r.fps == (Fps { num: 24, den: 1 }),
            r.resolution == (Resolution { width: 1920, height: 1080 }),
            r.sample_rate == 48000,
            r.audio_channels == 2,
    {
        TimelineSettings {
            fps: Fps::F24(),
            resolution: Resolution::HD(),
            sample_rate: 48000,
            audio_channels: 2,
        }
    }
}

/// Format and storage settings of a project; `cache_dir` is a path.
#[derive(Debug, Clone, PartialEq)]
pub struct ProjectSettings {
    pub fps: Fps,
    pub resolution: Resolution,
    pub sample_rate: u32,
    pub proxy_resolution: Resolution,
    pub cache_dir: Option<String>,
}

impl Default for ProjectSettings {
    /// 24 fps, 1920 x 1080, 48 kHz, 1280 x 720 proxies, no cache directory.
    fn default() -> (r: ProjectSettings)
        ensures
            r.fps == (Fps { num: 24, den: 1 }),
            r.resolution == (Resolution { width: 1920, height: 1080 }),
            r.sample_rate == 48000,
            r.proxy_resolution == (Resolution { width: 1280, height: 720 }),
            r.cache_dir is None,
    {
        ProjectSettings {
            fps: Fps::F24(),
            resolution: Resolution::HD(),
            sample_rate: 48000,
            proxy_resolution: Resolution::new(1280, 720),
            cache_dir: None,
        }
    }
}


/// A project: its media, timelines and settings. Identifiers are UUIDs,
/// `path` a file path, and the times Unix milliseconds.
#[derive(Debug, Clone)]
pub struct Project {
    pub id: u128,
    pub name: String,
    pub path: Option<String>,
    pub settings: ProjectSettings,
    pub created_at_ms: i64,
    pub modified_at_ms: i64,
    pub asset_ids: Vec<u128>,
    pub timeline_ids: Vec<u128>,
    pub active_timeline_id: Option<u128>,
}

impl Project {
    /// A new, empty, unsaved project with the given identifier and default
    /// settings, created at `now_ms`.
    pub fn created(id: u128, name: &str, now_ms: i64) -> (r: Project)
        ensures
            r.id == id,
            r.name@ == name@,
            r.path is None,
            r.settings.fps == (Fps { num: 24, den: 1 }),
            r.settings.resolution == (Resolution { width: 1920, height: 1080 }),
            r.settings.sample_rate == 48000,
            r.settings.proxy_resolution == (Resolution { width: 1280, height: 720 }),
            r.settings.cache_dir is None,
            r.created_at_ms == now_ms,
            r.modified_at_ms == now_ms,
            r.asset_ids@.len() == 0,
            r.timeline_ids@.len() == 0,
            r.active_timeline_id is None,
    {
        let mut n = String::new();
        push_str(&mut n, name);
        assert(n@ =~= name@);
        Project {
            id,
            name: n,
            path: None,
            settings: ProjectSettings::default(),
            created_at_ms: now_ms,
            modified_at_ms: now_ms,
            asset_ids: Vec::new(),
            timeline_ids: Vec::new(),
            active_timeline_id: None,
        }
    }

    /// A new, empty, unsaved project with default settings, created now.
    pub fn new(name: &str) -> (r: Project)
        ensures
            crate::ids::is_v4_uuid(r.id),
            r.name@ == name@,
            r.path is None,
            r.settings.fps == (Fps { num: 24, den: 1 }),
            r.settings.resolution == (Resolution { width: 1920, height: 1080 }),
            r.settings.sample_rate == 48000,
            r.settings.proxy_resolution == (Resolution { width: 1280, height: 720 }),
            r.settings.cache_dir is None,
            r.created_at_ms == r.modified_at_ms,
            r.asset_ids@.len() == 0,
            r.timeline_ids@.len() == 0,
            r.active_timeline_id is None,
    {
        let now = utc_now_millis();
        Project::created(crate::ids::new_v4_uuid(), name, now)
    }

    /// Marks the project modified at `now_ms`; nothing else changes.
    pub fn touch_at(&mut self, now_ms: i64)
        ensures
            final(self).modified_at_ms == now_ms,
            final(self).id == old(self).id && final(self).name == old(self).name && final(self).path
                == old(self).path && final(self).settings == old(self).settings
                && final(self).created_at_ms == old(self).created_at_ms && final(self).asset_ids
                == old(self).asset_ids && final(self).timeline_ids == old(self).timeline_ids
                && final(self).active_timeline_id == old(self).active_timeline_id,
    {
        self.modified_at_ms = now_ms;
    }

    /// Marks the project modified now; nothing else changes.
    pub fn touch(&mut self)
        ensures
            final(self).id == old(self).id && final(self).name == old(self).name && final(self).path
                == old(self).path && final(self).settings == old(self).settings
                && final(self).created_at_ms == old(self).created_at_ms && final(self).asset_ids
                == old(self).asset_ids && final(self).timeline_ids == old(self).timeline_ids
                && final(self).active_timeline_id == old(self).active_timeline_id,
    {
        let now = utc_now_millis();
        self.touch_at(now);
    }
}

} // verus!
