//! Live preview and final transcription decisions for push-to-talk dictation.
use vstd::prelude::*;
use crate::text::{append_vec, chars_eq, from_chars, slice_vec, to_chars, trim, trim_bounds, trim_start_cls, trim_start_index, CharClass};

verus! {

pub const LIVE_TRANSCRIPT_MAX_CHARS: usize = 180;
pub const SPEECH_DETECTION_FRAME_SAMPLES: usize = 320;
pub const SPEECH_TRIM_PADDING_SAMPLES: usize = 1600;
pub const FINAL_TRANSCRIPTION_MIN_SAMPLES: usize = 1600;
pub const SHORT_UTTERANCE_MIN_ACTIVE_FRAMES: usize = 2;
pub const SHORT_UTTERANCE_FINAL_MIN_SAMPLES: usize = 640;
pub const LIVE_TRANSCRIPTION_MIN_SAMPLES: usize = 9600;
pub const LIVE_TRANSCRIPTION_MIN_DELTA: usize = 2400;
pub const LIVE_TRANSCRIPTION_MAX_SAMPLES: usize = 192_000;
pub const SPEECH_DETECTION_LOOKBACK_SAMPLES: usize = 16_000;

#[derive(Clone, Copy, Debug, PartialEq, Eq, Structural)]
pub enum FinalSpeechWindowKind {
    Standard,
    ShortUtterance,
}

/// The span of samples to transcribe, `start..end`.
#[derive(Clone, Copy, Debug, PartialEq, Eq, Structural)]
pub struct FinalSpeechWindow {
    pub start: usize,
    pub end: usize,
    pub kind: FinalSpeechWindowKind,
}

#[derive(Clone, Copy, Debug, PartialEq, Eq, Structural)]
pub enum FinalTranscriptionAction {
    SkipSilence,
    SkipTooShort { trimmed_len: usize },
    Ready(FinalSpeechWindow),
}

pub open spec fn min_final_samples(kind: FinalSpeechWindowKind) -> usize {
    match kind {
        FinalSpeechWindowKind::Standard => FINAL_TRANSCRIPTION_MIN_SAMPLES,
        FinalSpeechWindowKind::ShortUtterance => SHORT_UTTERANCE_FINAL_MIN_SAMPLES,
    }
}

/// The fewest samples worth transcribing: 100 ms for ordinary speech, two detection frames
/// for a short utterance.
pub fn minimum_final_transcription_samples(kind: FinalSpeechWindowKind) -> (r: usize)
    ensures
        r == min_final_samples(kind),
        r as int == (match kind {
            FinalSpeechWindowKind::Standard => 1600int,
            FinalSpeechWindowKind::ShortUtterance => SPEECH_DETECTION_FRAME_SAMPLES
                * SHORT_UTTERANCE_MIN_ACTIVE_FRAMES,
        }),
{
    match kind {
        FinalSpeechWindowKind::Standard => FINAL_TRANSCRIPTION_MIN_SAMPLES,
        FinalSpeechWindowKind::ShortUtterance => SHORT_UTTERANCE_FINAL_MIN_SAMPLES,
    }
}

/// What to do with the speech window found in a recording (none: silence).
pub open spec fn final_action(window: Option<FinalSpeechWindow>) -> FinalTranscriptionAction {
    match window {
        None => FinalTranscriptionAction::SkipSilence,
        Some(w) => if w.end - w.start < min_final_samples(w.kind) {
            FinalTranscriptionAction::SkipTooShort { trimmed_len: (w.end - w.start) as usize }
        } else {
            FinalTranscriptionAction::Ready(w)
        },
    }
}

/// The decision of `prepare_final_transcription` once the speech window is known.
pub fn final_transcription_action(window: Option<FinalSpeechWindow>) -> (r: FinalTranscriptionAction)
    requires
        window matches Some(w) ==> w.start <= w.end,
    ensures
        r == final_action(window),
{
    match window {
        None => FinalTranscriptionAction::SkipSilence,
        Some(w) => {
            let trimmed_len = w.end - w.start;
            if trimmed_len < minimum_final_transcription_samples(w.kind) {
                FinalTranscriptionAction::SkipTooShort { trimmed_len }
            } else {
                FinalTranscriptionAction::Ready(w)
            }
        },
    }
}

pub open spec fn padded_range(total_len: usize, start: usize, end: usize) -> (int, int) {
    let s = if start >= SPEECH_TRIM_PADDING_SAMPLES {
        start - SPEECH_TRIM_PADDING_SAMPLES
    } else {
        0
    };
    let e = if end + SPEECH_TRIM_PADDING_SAMPLES <= total_len {
        end + SPEECH_TRIM_PADDING_SAMPLES
    } else {
        total_len as int
    };
    (s, e)
}

/// The detected speech span widened by 100 ms on each side, within the recording.
pub fn padded_speech_range(total_len: usize, start: usize, end: usize) -> (r: (usize, usize))
    requires
        end + SPEECH_TRIM_PADDING_SAMPLES <= usize::MAX,
    ensures
        (r.0 as int, r.1 as int) == padded_range(total_len, start, end),
{
    let s = if start >= SPEECH_TRIM_PADDING_SAMPLES {
        start - SPEECH_TRIM_PADDING_SAMPLES
    } else {
        0
    };
    let e = if end + SPEECH_TRIM_PADDING_SAMPLES <= total_len {
        end + SPEECH_TRIM_PADDING_SAMPLES
    } else {
        total_len
    };
    (s, e)
}

/// `format_live_transcript`: the trimmed text, or when it is longer than 180 characters
/// "..." and its last 180 characters with leading whitespace removed.
pub open spec fn live_transcript(text: Seq<char>) -> Seq<char> {
    let t = trim(text);
    if t.len() <= LIVE_TRANSCRIPT_MAX_CHARS {
        t
    } else {
        seq!['.', '.', '.'] + trim_start_cls(
            t.skip(t.len() - LIVE_TRANSCRIPT_MAX_CHARS),
            CharClass::Whitespace,
        )
    }
}

pub fn format_live_transcript_chars(text: &Vec<char>) -> (r: Vec<char>)
    ensures
        r@ == live_transcript(text@),
{
    let (a, b) = trim_bounds(text, 0, text.len(), CharClass::Whitespace);
    assert(text@.subrange(0, text@.len() as int) =~= text@);
    let ghost t = text@.subrange(a as int, b as int);
    if b - a <= LIVE_TRANSCRIPT_MAX_CHARS {
        return slice_vec(text, a, b);
    }
    let tail_start = b - LIVE_TRANSCRIPT_MAX_CHARS;
    assert(t.skip(t.len() - LIVE_TRANSCRIPT_MAX_CHARS) =~= text@.subrange(tail_start as int, b as int));
    let c = trim_start_index(text, tail_start, b, CharClass::Whitespace);
    let mut out = vec!['.', '.', '.'];
    let rest = slice_vec(text, c, b);
    append_vec(&mut out, &rest);
    out
}

pub fn format_live_transcript(text: &str) -> (r: String)
    ensures
        r@ == live_transcript(text@),
{
    let t = to_chars(text);
    let f = format_live_transcript_chars(&t);
    from_chars(&f)
}

/// A live preview never shows more than 183 characters.
pub proof fn lemma_live_transcript_len(text: Seq<char>)
    ensures
        live_transcript(text).len() <= LIVE_TRANSCRIPT_MAX_CHARS + 3,
{
    let t = trim(text);
    if t.len() > LIVE_TRANSCRIPT_MAX_CHARS {
        lemma_trim_start_len(t.skip(t.len() - LIVE_TRANSCRIPT_MAX_CHARS));
    }
}

pub proof fn lemma_trim_start_len(s: Seq<char>)
    ensures
        trim_start_cls(s, CharClass::Whitespace).len() <= s.len(),
    decreases s.len(),
{
    if s.len() > 0 && crate::text::in_class(CharClass::Whitespace, s[0]) {
        lemma_trim_start_len(s.drop_first());
    }
}

/// What the live preview has shown so far.
pub struct LivePreviewState {
    last_transcribed_samples: usize,
    last_text: String,
}

pub ghost struct LivePreviewView {
    pub last_transcribed_samples: usize,
    pub last_text: Seq<char>,
}

impl View for LivePreviewState {
    type V = LivePreviewView;

    closed spec fn view(&self) -> LivePreviewView {
        LivePreviewView {
            last_transcribed_samples: self.last_transcribed_samples,
            last_text: self.last_text@,
        }
    }
}

impl LivePreviewState {
    pub fn new() -> (r: Self)
        ensures
            r@ == (LivePreviewView { last_transcribed_samples: 0, last_text: Seq::empty() }),
    {
        LivePreviewState { last_transcribed_samples: 0, last_text: String::new() }
    }

    /// Records a preview transcription of the first `observed_samples_len` samples, and
    /// returns the text to show when it is not empty and differs from what is shown.
    pub fn register_transcription(&mut self, observed_samples_len: usize, text: &str) -> (r:
        Option<String>)
        ensures
            ({
                let shown = live_transcript(text@);
                if shown.len() == 0 || shown == old(self)@.last_text {
                    &&& r is None
                    &&& final(self)@ == LivePreviewView {
                        last_transcribed_samples: observed_samples_len,
                        last_text: old(self)@.last_text,
                    }
                } else {
                    &&& r matches Some(s) && s@ == shown
                    &&& final(self)@ == LivePreviewView {
                        last_transcribed_samples: observed_samples_len,
                        last_text: shown,
                    }
                }
            }),
    {
        self.last_transcribed_samples = observed_samples_len;
        let tc = to_chars(text);
        let display = format_live_transcript_chars(&tc);
        let last = to_chars(self.last_text.as_str());
        if display.len() == 0 || chars_eq(&display, &last) {
            return None;
        }
        self.last_text = from_chars(&display);
        Some(from_chars(&display))
    }

    pub fn clear(&mut self)
        ensures
            final(self)@ == (LivePreviewView { last_transcribed_samples: 0, last_text: Seq::empty() }),
    {
        self.last_transcribed_samples = 0;
        self.last_text = String::new();
    }

    /// Samples seen by the last preview transcription.
    pub fn last_transcribed_samples(&self) -> (r: usize)
        ensures
            r == self@.last_transcribed_samples,
    {
        self.last_transcribed_samples
    }
}

/// What the live preview does with the audio recorded so far.
#[derive(Clone, Copy, Debug, PartialEq, Eq, Structural)]
pub enum LivePreviewStep {
    /// Too little audio, or too little new audio since the last preview.
    Skip,
    /// No speech in the last second: the preview is cleared.
    Clear,
    /// Transcribe the last `window_start..` samples, and remember how many were seen.
    Transcribe { window_start: usize, observed_samples_len: usize },
}

impl LivePreviewState {
    /// The next live preview step for `samples_len` recorded samples, given whether the
    /// last second of them holds speech.
    pub fn next_step(&self, samples_len: usize, recent_window_has_speech: bool) -> (r:
        LivePreviewStep)
        ensures
            r == if samples_len < LIVE_TRANSCRIPTION_MIN_SAMPLES {
                LivePreviewStep::Skip
            } else if (if samples_len >= self@.last_transcribed_samples {
                samples_len - self@.last_transcribed_samples
            } else {
                0
            }) < LIVE_TRANSCRIPTION_MIN_DELTA {
                LivePreviewStep::Skip
            } else if !recent_window_has_speech {
                LivePreviewStep::Clear
            } else {
                LivePreviewStep::Transcribe {
                    window_start: if samples_len >= LIVE_TRANSCRIPTION_MAX_SAMPLES {
                        (samples_len - LIVE_TRANSCRIPTION_MAX_SAMPLES) as usize
                    } else {
                        0
                    },
                    observed_samples_len: samples_len,
                }
            },
    {
        if samples_len < LIVE_TRANSCRIPTION_MIN_SAMPLES {
            return LivePreviewStep::Skip;
        }
        let delta = if samples_len >= self.last_transcribed_samples {
            samples_len - self.last_transcribed_samples
        } else {
            0
        };
        if delta < LIVE_TRANSCRIPTION_MIN_DELTA {
            return LivePreviewStep::Skip;
        }
        if !recent_window_has_speech {
            return LivePreviewStep::Clear;
        }
        let window_start = if samples_len >= LIVE_TRANSCRIPTION_MAX_SAMPLES {
            samples_len - LIVE_TRANSCRIPTION_MAX_SAMPLES
        } else {
            0
        };
        LivePreviewStep::Transcribe { window_start, observed_samples_len: samples_len }
    }
}

/// Where the last second of audio starts, the part checked for speech.
pub fn recent_speech_window_start(samples_len: usize) -> (r: usize)
    ensures
        r == if samples_len >= SPEECH_DETECTION_LOOKBACK_SAMPLES {
            samples_len - SPEECH_DETECTION_LOOKBACK_SAMPLES
        } else {
            0
        },
{
    if samples_len >= SPEECH_DETECTION_LOOKBACK_SAMPLES {
        samples_len - SPEECH_DETECTION_LOOKBACK_SAMPLES
    } else {
        0
    }
}

/// The first active frame and the last, among the first `k` frames.
pub open spec fn active_span(active: Seq<bool>, k: int) -> (Option<int>, int, nat)
    decreases k,
{
    if k <= 0 {
        (None, 0, 0)
    } else {
        let (first, last, count) = active_span(active, k - 1);
        if active[k - 1] {
            (
                match first {
                    Some(f) => Some(f),
                    None => Some(k - 1),
                },
                k - 1,
                count + 1,
            )
        } else {
            (first, last, count)
        }
    }
}

/// The samples spanned by speech, from which frames of `SPEECH_DETECTION_FRAME_SAMPLES`
/// samples were loud enough: from the start of the first active frame to the end of the
/// last (the last frame may be short); none with fewer active frames than needed.
pub open spec fn activity_span(active: Seq<bool>, total_len: int, min_active_frames: int) -> Option<
    (int, int),
> {
    let (first, last, count) = active_span(active, active.len() as int);
    if count < min_active_frames || count == 0 {
        if count < min_active_frames {
            None
        } else {
            Some((0, 0))
        }
    } else {
        let end = (last + 1) * SPEECH_DETECTION_FRAME_SAMPLES;
        Some((
            first->0 * SPEECH_DETECTION_FRAME_SAMPLES,
            if end <= total_len {
                end
            } else {
                total_len
            },
        ))
    }
}

pub proof fn lemma_active_span(active: Seq<bool>, k: int)
    requires
        0 <= k <= active.len(),
    ensures
        ({
            let (first, last, count) = active_span(active, k);
            &&& count <= k
            &&& count > 0 ==> (first matches Some(f) && 0 <= f <= last < k)
            &&& count == 0 ==> first is None
        }),
    decreases k,
{
    if k > 0 {
        lemma_active_span(active, k - 1);
    }
}

/// The span of speech in a recording of `total_len` samples, from which of its frames were
/// loud enough.
pub fn activity_bounds(frame_active: &Vec<bool>, total_len: usize, min_active_frames: usize) -> (r:
    Option<(usize, usize)>)
    requires
        frame_active@.len() * SPEECH_DETECTION_FRAME_SAMPLES <= usize::MAX,
    ensures
        match activity_span(frame_active@, total_len as int, min_active_frames as int) {
            Some((s, e)) => r == Some((s as usize, e as usize)),
            None => r is None,
        },
{
    let mut first: Option<usize> = None;
    let mut last: usize = 0;
    let mut count: usize = 0;
    for k in 0..frame_active.len()
        invariant
            frame_active@.len() * SPEECH_DETECTION_FRAME_SAMPLES <= usize::MAX,
            ({
                let (f, l, c) = active_span(frame_active@, k as int);
                &&& c == count
                &&& l == last
                &&& match f {
                    Some(x) => first == Some(x as usize),
                    None => first is None,
                }
            }),
    {
        proof {
            lemma_active_span(frame_active@, k as int);
        }
        if frame_active[k] {
            if first.is_none() {
                first = Some(k);
            }
            last = k;
            count = count + 1;
        }
    }
    proof {
        lemma_active_span(frame_active@, frame_active@.len() as int);
    }
    if count < min_active_frames {
        return None;
    }
    match first {
        None => Some((0, 0)),
        Some(f) => {
            assert(f <= last < frame_active@.len());
            assert((last + 1) * SPEECH_DETECTION_FRAME_SAMPLES <= frame_active@.len()
                * SPEECH_DETECTION_FRAME_SAMPLES) by (nonlinear_arith)
                requires
                    last + 1 <= frame_active@.len(),
            ;
            assert(f * SPEECH_DETECTION_FRAME_SAMPLES <= last * SPEECH_DETECTION_FRAME_SAMPLES) by (nonlinear_arith)
                requires
                    f <= last,
            ;
            let end = (last + 1) * SPEECH_DETECTION_FRAME_SAMPLES;
            Some((f * SPEECH_DETECTION_FRAME_SAMPLES, if end <= total_len {
                end
            } else {
                total_len
            }))
        },
    }
}

} // verus!
