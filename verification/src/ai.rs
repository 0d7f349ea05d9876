//! AI-assisted editing: which analysis services are available, their error
//! type, and the text helpers over transcript segments.
use crate::text::{
    chars_match_at, chars_of, join_strings, joined, lowercase, push_str, texts_of, to_lowercase,
};
use vstd::prelude::*;

verus! {

/// A half-open span of frames reported by an analysis.
#[derive(Debug, Clone, Copy)]
pub struct FrameRange {
    pub start: i64,
    pub end: i64,
}

impl FrameRange {
    pub fn new(start: i64, end: i64) -> (r: FrameRange)
        ensures
            r.start == start,
            r.end == end,
    {
        FrameRange { start, end }
    }
}

/// How one shot turns into the next.
#[derive(Debug, Clone, Copy, PartialEq, Eq, Structural)]
pub enum SceneChangeType {
    HardCut,
    Fade,
    Dissolve,
    Wipe,
    ContentChange,
}

/// What an edit suggestion proposes.
#[derive(Debug, Clone, PartialEq, Eq, Structural)]
pub enum SuggestionType {
    RemoveSilence,
    TrimRedundant,
    CutPoint,
    AddTransition,
    SpeedUp,
    SlowDown,
    RemoveFillerWords,
    NormalizeAudio,
}

/// Why an analysis could not be done.
#[derive(Debug, Clone)]
pub enum AiError {
    ModelNotAvailable(String),
    ProcessingFailed(String),
    UnsupportedMedia(String),
    ServiceUnavailable(String),
    RateLimited,
}

/// The message of an error, as it is displayed.
pub open spec fn ai_error_text(e: AiError) -> Seq<char> {
    match e {
        AiError::ModelNotAvailable(m) => "Model not available: "@ + m@,
        AiError::ProcessingFailed(m) => "Processing failed: "@ + m@,
        AiError::UnsupportedMedia(m) => "Unsupported media: "@ + m@,
        AiError::ServiceUnavailable(m) => "Service unavailable: "@ + m@,
        AiError::RateLimited => "Rate limited"@,
    }
}

impl AiError {
    /// The displayed message.
    pub fn message(&self) -> (r: String)
        ensures
            r@ == ai_error_text(*self),
    {
        let mut s = String::new();
        match self {
            AiError::ModelNotAvailable(m) => {
                push_str(&mut s, "Model not available: ");
                push_str(&mut s, m.as_str());
            },
            AiError::ProcessingFailed(m) => {
                push_str(&mut s, "Processing failed: ");
                push_str(&mut s, m.as_str());
            },
            AiError::UnsupportedMedia(m) => {
                push_str(&mut s, "Unsupported media: ");
                push_str(&mut s, m.as_str());
            },
            AiError::ServiceUnavailable(m) => {
                push_str(&mut s, "Service unavailable: ");
                push_str(&mut s, m.as_str());
            },
            AiError::RateLimited => {
                push_str(&mut s, "Rate limited");
            },
        }
        assert(s@ =~= ai_error_text(*self));
        s
    }
}

/// The analysis services. Scene detection, transcription and edit
/// suggestions are always offered; no local model is installed.
pub struct AiService {
    local_models_available: bool,
}

impl AiService {
    pub closed spec fn spec_local_models(&self) -> bool {
        self.local_models_available
    }

    pub fn new() -> (r: AiService)
        ensures
            !r.spec_local_models(),
    {
        AiService { local_models_available: false }
    }

    pub fn is_scene_detection_available(&self) -> (r: bool)
        ensures
            r,
    {
        true
    }

    pub fn is_transcription_available(&self) -> (r: bool)
        ensures
            r,
    {
        true
    }

    pub fn is_auto_edit_available(&self) -> (r: bool)
        ensures
            r,
    {
        true
    }

    pub fn has_local_models(&self) -> (r: bool)
        ensures
            r == self.spec_local_models(),
    {
        self.local_models_available
    }
}

/// The full text of a transcript: its segments' texts separated by one
/// space.
pub fn full_text(texts: &Vec<String>) -> (r: String)
    ensures
        r@ == joined(texts_of(texts@), " "@),
{
    join_strings(texts, " ")
}

/// `needle` occurs somewhere in `hay`.
pub open spec fn occurs_in(needle: Seq<char>, hay: Seq<char>) -> bool {
    exists|i: int|
        0 <= i && i + needle.len() <= hay.len() && #[trigger] hay.subrange(i, i + needle.len())
            == needle
}

/// `needle` occurs in `hay`, searched from every start position.
fn occurs(needle: &Vec<char>, hay: &Vec<char>) -> (r: bool)
    ensures
        r == occurs_in(needle@, hay@),
{
    if needle.len() > hay.len() {
        return false;
    }
    let last = hay.len() - needle.len();
    let mut i: usize = 0;
    while i < last
        invariant
            i <= last,
            last == hay@.len() - needle@.len(),
            forall|j: int|
                0 <= j < i ==> #[trigger] hay@.subrange(j, j + needle@.len()) != needle@,
        decreases last - i,
    {
        if chars_match_at(hay, i, needle) {
            return true;
        }
        i = i + 1;
    }
    chars_match_at(hay, last, needle)
}

/// The positions below `n` of the texts that hold `needle`, in order.
pub open spec fn positions_holding(texts: Seq<Seq<char>>, needle: Seq<char>, n: nat) -> Seq<int>
    decreases n,
{
    if n == 0 || n > texts.len() {
        Seq::empty()
    } else {
        let prev = positions_holding(texts, needle, (n - 1) as nat);
        if occurs_in(needle, texts[n - 1]) {
            prev.push(n - 1)
        } else {
            prev
        }
    }
}

/// The texts lower-cased.
pub open spec fn lowercased(texts: Seq<Seq<char>>) -> Seq<Seq<char>> {
    texts.map_values(|t: Seq<char>| lowercase(t))
}

/// The positions of the texts that hold `needle`, in order.
pub fn segments_holding(texts: &Vec<String>, needle: &str) -> (r: Vec<usize>)
    ensures
        r@.map_values(|i: usize| i as int) == positions_holding(
            texts_of(texts@),
            needle@,
            texts@.len(),
        ),
{
    let ghost parts = texts_of(texts@);
    let n = chars_of(needle);
    let mut out: Vec<usize> = Vec::new();
    let mut i: usize = 0;
    while i < texts.len()
        invariant
            i <= texts.len(),
            parts == texts_of(texts@),
            n@ == needle@,
            out@.map_values(|k: usize| k as int) == positions_holding(parts, needle@, i as nat),
        decreases texts.len() - i,
    {
        let hay = chars_of(texts[i].as_str());
        let ghost prev = out@;
        if occurs(&n, &hay) {
            out.push(i);
            assert(out@.map_values(|k: usize| k as int) =~= prev.map_values(|k: usize| k as int).push(
                i as int,
            ));
        }
        i = i + 1;
    }
    out
}

/// Case-insensitive search of a transcript: the positions of the segments
/// whose text, lower-cased (`str::to_lowercase`), holds `term` lower-cased,
/// in order.
pub fn search_segments(texts: &Vec<String>, term: &str) -> (r: Vec<usize>)
    ensures
        r@.map_values(|i: usize| i as int) == positions_holding(
            lowercased(texts_of(texts@)),
            lowercase(term@),
            texts@.len(),
        ),
{
    let ghost parts = texts_of(texts@);
    let mut lowered: Vec<String> = Vec::new();
    let mut i: usize = 0;
    while i < texts.len()
        invariant
            i <= texts.len(),
            parts == texts_of(texts@),
            texts_of(lowered@) == lowercased(parts).take(i as int),
        decreases texts.len() - i,
    {
        let ghost before = lowered@;
        lowered.push(to_lowercase(texts[i].as_str()));
        proof {
            assert(texts_of(lowered@) =~= texts_of(before).push(lowercase(parts[i as int])));
            assert(lowercased(parts).take(i + 1) =~= lowercased(parts).take(i as int).push(
                lowercase(parts[i as int]),
            ));
        }
        i = i + 1;
    }
    proof {
        assert(lowercased(parts).take(texts@.len() as int) =~= lowercased(parts));
    }
    let t = to_lowercase(term);
    segments_holding(&lowered, t.as_str())
}

} // verus!
