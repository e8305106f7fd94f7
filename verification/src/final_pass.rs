//! The final pass over a finished ambient session: requests to the WhisperX helper and the
//! mapping of its answer onto transcript segments.
use vstd::prelude::*;
use crate::ambient::{seg_views, AudioLane, CanonicalSegment, SegmentView, SpeakerLabel};
use crate::config::index_of;
use crate::text::{chars_eq, clone_chars, from_chars, str_eq, to_chars, trim, trimmed, views, CharClass};

verus! {

#[derive(Clone, Copy, Debug, PartialEq, Eq, Structural)]
pub enum WhisperxHelperMode {
    WhisperxHybrid,
    PyannoteReassign,
}

pub struct WhisperxHelperInputSegment {
    pub start_ms: u64,
    pub end_ms: u64,
    pub text: String,
}

/// What the helper is asked to do; `audio_path` names the WAV file to read.
pub struct WhisperxHelperRequest {
    pub mode: WhisperxHelperMode,
    pub audio_path: String,
    pub model: String,
    pub device: String,
    pub compute_type: String,
    pub language: String,
    pub segments: Vec<WhisperxHelperInputSegment>,
}

pub struct WhisperxHelperWord {
    pub start_ms: Option<u64>,
    pub end_ms: Option<u64>,
    pub speaker: Option<String>,
    pub text: String,
}

pub struct WhisperxHelperSegment {
    pub start_ms: u64,
    pub end_ms: u64,
    pub speaker: Option<String>,
    pub text: String,
    pub words: Vec<WhisperxHelperWord>,
}

#[derive(Clone, Copy, Debug, Default, PartialEq, Eq, Structural)]
pub struct WhisperxHelperDiagnostics {
    pub detected_speakers: usize,
    pub transcription_ms: u64,
    pub alignment_ms: u64,
    pub diarization_ms: u64,
    pub assignment_ms: u64,
    pub total_ms: u64,
}

pub struct WhisperxHelperResponse {
    pub engine: String,
    pub transcript_text: String,
    pub segments: Vec<WhisperxHelperSegment>,
    pub diagnostics: WhisperxHelperDiagnostics,
}

/// Timings and findings of a final pass (the real-time factor is kept by the app).
pub struct AmbientFinalPassDiagnostics {
    pub asset_version: Option<String>,
    pub runtime_backend: Option<String>,
    pub warning: Option<String>,
    pub detected_speakers: usize,
    pub transcription_ms: u64,
    pub alignment_ms: u64,
    pub diarization_ms: u64,
    pub assignment_ms: u64,
    pub segmentation_ms: u64,
    pub embedding_ms: u64,
    pub clustering_ms: u64,
    pub total_ms: u64,
}

pub struct AmbientFinalPassResult {
    pub engine: String,
    pub transcript_text: String,
    pub segments: Vec<CanonicalSegment>,
    pub diagnostics: AmbientFinalPassDiagnostics,
}

pub open spec fn whisperx_model(model: Seq<char>) -> Seq<char> {
    if model == "tiny"@ {
        "tiny.en"@
    } else if model == "small"@ {
        "small.en"@
    } else {
        "base.en"@
    }
}

/// The WhisperX model that matches a Screamer model: the English variant of tiny or small,
/// base.en otherwise.
pub fn whisperx_model_for_screamer_model(model: &str) -> (r: &'static str)
    ensures
        r@ == whisperx_model(model@),
{
    if str_eq(model, "tiny") {
        "tiny.en"
    } else if str_eq(model, "small") {
        "small.en"
    } else {
        "base.en"
    }
}

pub open spec fn label_for_index(i: int) -> SpeakerLabel {
    if i == 0 {
        SpeakerLabel::S1
    } else if i == 1 {
        SpeakerLabel::S2
    } else if i == 2 {
        SpeakerLabel::S3
    } else if i == 3 {
        SpeakerLabel::S4
    } else if i == 4 {
        SpeakerLabel::S5
    } else {
        SpeakerLabel::S6
    }
}

/// The speaker label for the `index`-th distinct helper speaker; the sixth and later share
/// the last label.
pub fn speaker_label_for_index(index: usize) -> (r: SpeakerLabel)
    ensures
        r == label_for_index(index as int),
{
    match index {
        0 => SpeakerLabel::S1,
        1 => SpeakerLabel::S2,
        2 => SpeakerLabel::S3,
        3 => SpeakerLabel::S4,
        4 => SpeakerLabel::S5,
        _ => SpeakerLabel::S6,
    }
}

pub ghost struct HelperSegmentView {
    pub start_ms: u64,
    pub end_ms: u64,
    pub speaker: Option<Seq<char>>,
    pub text: Seq<char>,
}

pub open spec fn helper_view(s: WhisperxHelperSegment) -> HelperSegmentView {
    HelperSegmentView {
        start_ms: s.start_ms,
        end_ms: s.end_ms,
        speaker: match s.speaker {
            Some(x) => Some(x@),
            None => None,
        },
        text: s.text@,
    }
}

pub open spec fn helper_views(v: Seq<WhisperxHelperSegment>) -> Seq<HelperSegmentView> {
    v.map_values(|s: WhisperxHelperSegment| helper_view(s))
}

pub open spec fn named_speaker(s: HelperSegmentView) -> bool {
    s.speaker matches Some(raw) && trim(raw).len() > 0
}

/// Speakers are labelled in the order their names first appear; a segment without a name
/// keeps the speaker of the one before it (S1 at the start). Returns the names seen, the
/// last label and the segments.
pub open spec fn assign_speakers(segs: Seq<HelperSegmentView>) -> (
    Seq<Seq<char>>,
    SpeakerLabel,
    Seq<SegmentView>,
)
    decreases segs.len(),
{
    if segs.len() == 0 {
        (Seq::empty(), SpeakerLabel::S1, Seq::empty())
    } else {
        let (seen, last, out) = assign_speakers(segs.drop_last());
        let s = segs.last();
        let named = named_speaker(s);
        let raw = s.speaker->0;
        let k = index_of(seen, raw);
        let speaker = if named {
            if k >= 0 {
                label_for_index(k)
            } else {
                label_for_index(seen.len() as int)
            }
        } else {
            last
        };
        let seen2 = if named && k < 0 {
            seen.push(raw)
        } else {
            seen
        };
        let seg = SegmentView {
            id: segs.len() as u64,
            lane: AudioLane::Microphone,
            speaker,
            start_ms: s.start_ms,
            end_ms: if s.end_ms >= s.start_ms + 1 {
                s.end_ms
            } else {
                (s.start_ms + 1) as u64
            },
            text: trim(s.text),
        };
        (seen2, speaker, out.push(seg))
    }
}

pub fn find_name(seen: &Vec<Vec<char>>, raw: &Vec<char>) -> (r: Option<usize>)
    ensures
        match r {
            Some(k) => k as int == index_of(views(seen@), raw@),
            None => index_of(views(seen@), raw@) == -1,
        },
{
    let ghost sv = views(seen@);
    proof {
        crate::config::lemma_index_of(sv, raw@);
    }
    let mut i: usize = 0;
    while i < seen.len()
        invariant
            sv == views(seen@),
            i <= seen@.len(),
            forall|k: int| 0 <= k < i ==> sv[k] != raw@,
            index_of(sv, raw@) >= 0 ==> index_of(sv, raw@) < sv.len() && sv[index_of(sv, raw@)]
                == raw@,
            forall|k: int| 0 <= k < index_of(sv, raw@) ==> sv[k] != raw@,
            index_of(sv, raw@) >= -1,
            index_of(sv, raw@) >= 0 <==> sv.contains(raw@),
        decreases seen.len() - i,
    {
        if chars_eq(&seen[i], raw) {
            assert(sv[i as int] == raw@);
            assert(sv.contains(raw@));
            return Some(i);
        }
        i = i + 1;
    }
    None
}

/// `helper_response_to_result`: an error when the helper found no segments; otherwise its
/// segments with speakers assigned, numbered from 1, trimmed, at least 1 ms long, with the
/// helper's engine, trimmed transcript and timings.
pub fn helper_response_to_result(response: WhisperxHelperResponse) -> (r: Result<
    AmbientFinalPassResult,
    String,
>)
    requires
        forall|k: int|
            0 <= k < response.segments@.len() ==> (#[trigger] response.segments@[k]).start_ms
                < u64::MAX,
    ensures
        response.segments@.len() == 0 ==> (r matches Err(e) && e@
            == "WhisperX helper returned no segments."@),
        response.segments@.len() > 0 ==> (r matches Ok(res) && {
            &&& res.engine@ == response.engine@
            &&& res.transcript_text@ == trim(response.transcript_text@)
            &&& seg_views(res.segments@) == assign_speakers(helper_views(response.segments@)).2
            &&& res.diagnostics.asset_version is None
            &&& res.diagnostics.runtime_backend is None
            &&& res.diagnostics.warning is None
            &&& res.diagnostics.detected_speakers == response.diagnostics.detected_speakers
            &&& res.diagnostics.transcription_ms == response.diagnostics.transcription_ms
            &&& res.diagnostics.alignment_ms == response.diagnostics.alignment_ms
            &&& res.diagnostics.diarization_ms == response.diagnostics.diarization_ms
            &&& res.diagnostics.assignment_ms == response.diagnostics.assignment_ms
            &&& res.diagnostics.segmentation_ms == 0
            &&& res.diagnostics.embedding_ms == 0
            &&& res.diagnostics.clustering_ms == 0
            &&& res.diagnostics.total_ms == response.diagnostics.total_ms
        }),
{
    if response.segments.len() == 0 {
        return Err("WhisperX helper returned no segments.".to_string());
    }
    let ghost hv = helper_views(response.segments@);
    let mut seen: Vec<Vec<char>> = Vec::new();
    let mut last_label = SpeakerLabel::S1;
    let mut out: Vec<CanonicalSegment> = Vec::new();
    let n = response.segments.len();
    for i in 0..n
        invariant
            n == response.segments@.len(),
            hv == helper_views(response.segments@),
            forall|k: int|
                0 <= k < response.segments@.len() ==> (#[trigger] response.segments@[k]).start_ms
                    < u64::MAX,
            views(seen@) == assign_speakers(hv.take(i as int)).0,
            last_label == assign_speakers(hv.take(i as int)).1,
            seg_views(out@) == assign_speakers(hv.take(i as int)).2,
    {
        assert(hv.take(i + 1).drop_last() =~= hv.take(i as int));
        assert(hv.take(i + 1).last() == hv[i as int]);
        let seg = &response.segments[i];
        let mut speaker = last_label;
        match &seg.speaker {
            Some(raw) => {
                let rc = to_chars(raw.as_str());
                let t = trimmed(&rc, CharClass::Whitespace);
                if t.len() > 0 {
                    match find_name(&seen, &rc) {
                        Some(k) => {
                            speaker = speaker_label_for_index(k);
                        },
                        None => {
                            speaker = speaker_label_for_index(seen.len());
                            proof {
                                crate::text::lemma_views_push(seen@, rc);
                            }
                            seen.push(rc);
                        },
                    }
                }
            },
            None => {},
        }
        last_label = speaker;
        let end_ms = if seg.end_ms >= seg.start_ms + 1 {
            seg.end_ms
        } else {
            seg.start_ms + 1
        };
        let tc = to_chars(seg.text.as_str());
        let tt = trimmed(&tc, CharClass::Whitespace);
        let cs = CanonicalSegment {
            id: i as u64 + 1,
            lane: AudioLane::Microphone,
            speaker,
            start_ms: seg.start_ms,
            end_ms,
            text: from_chars(&tt),
        };
        proof {
            crate::ambient::lemma_seg_views_push(out@, cs);
        }
        out.push(cs);
    }
    assert(hv.take(n as int) =~= hv);
    let tt0 = to_chars(response.transcript_text.as_str());
    let tt = trimmed(&tt0, CharClass::Whitespace);
    Ok(AmbientFinalPassResult {
        engine: response.engine,
        transcript_text: from_chars(&tt),
        segments: out,
        diagnostics: AmbientFinalPassDiagnostics {
            asset_version: None,
            runtime_backend: None,
            warning: None,
            detected_speakers: response.diagnostics.detected_speakers,
            transcription_ms: response.diagnostics.transcription_ms,
            alignment_ms: response.diagnostics.alignment_ms,
            diarization_ms: response.diagnostics.diarization_ms,
            assignment_ms: response.diagnostics.assignment_ms,
            segmentation_ms: 0,
            embedding_ms: 0,
            clustering_ms: 0,
            total_ms: response.diagnostics.total_ms,
        },
    })
}

/// The request for a WhisperX transcription with diarization of the audio file.
pub fn whisperx_hybrid_request(audio_path: &str, screamer_model: &str) -> (r: WhisperxHelperRequest)
    ensures
        r.mode == WhisperxHelperMode::WhisperxHybrid,
        r.audio_path@ == audio_path@,
        r.model@ == whisperx_model(screamer_model@),
        r.device@ == "cpu"@,
        r.compute_type@ == "int8"@,
        r.language@ == "en"@,
        r.segments@.len() == 0,
{
    WhisperxHelperRequest {
        mode: WhisperxHelperMode::WhisperxHybrid,
        audio_path: audio_path.to_string(),
        model: whisperx_model_for_screamer_model(screamer_model).to_string(),
        device: "cpu".to_string(),
        compute_type: "int8".to_string(),
        language: "en".to_string(),
        segments: Vec::new(),
    }
}

/// The request to reassign speakers of the given segments with pyannote.
pub fn pyannote_reassign_request(
    audio_path: &str,
    screamer_model: &str,
    segments: &[CanonicalSegment],
) -> (r: WhisperxHelperRequest)
    ensures
        r.mode == WhisperxHelperMode::PyannoteReassign,
        r.audio_path@ == audio_path@,
        r.model@ == whisperx_model(screamer_model@),
        r.device@ == "cpu"@,
        r.compute_type@ == "int8"@,
        r.language@ == "en"@,
        r.segments@.len() == segments@.len(),
        forall|k: int|
            0 <= k < segments@.len() ==> {
                &&& (#[trigger] r.segments@[k]).start_ms == segments@[k].start_ms
                &&& r.segments@[k].end_ms == segments@[k].end_ms
                &&& r.segments@[k].text@ == segments@[k].text@
            },
{
    let mut input: Vec<WhisperxHelperInputSegment> = Vec::new();
    for i in 0..segments.len()
        invariant
            input@.len() == i,
            forall|k: int|
                0 <= k < i ==> {
                    &&& (#[trigger] input@[k]).start_ms == segments@[k].start_ms
                    &&& input@[k].end_ms == segments@[k].end_ms
                    &&& input@[k].text@ == segments@[k].text@
                },
    {
        input.push(
            WhisperxHelperInputSegment {
                start_ms: segments[i].start_ms,
                end_ms: segments[i].end_ms,
                text: segments[i].text.clone(),
            },
        );
    }
    WhisperxHelperRequest {
        mode: WhisperxHelperMode::PyannoteReassign,
        audio_path: audio_path.to_string(),
        model: whisperx_model_for_screamer_model(screamer_model).to_string(),
        device: "cpu".to_string(),
        compute_type: "int8".to_string(),
        language: "en".to_string(),
        segments: input,
    }
}

} // verus!
