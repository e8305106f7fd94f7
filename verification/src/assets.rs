//! The diarization model assets: their manifest entries and checksums.
use vstd::prelude::*;
use sha2::Digest;
use crate::text::{concat3, from_chars, lower, to_chars, to_lower, trim, trimmed, CharClass, chars_eq};

verus! {

pub const BUILTIN_ASSET_VERSION: &'static str = "builtin-mfcc-v1";

#[derive(Clone, Copy, Debug, PartialEq, Eq, Structural)]
pub enum AmbientModelInputLayout {
    BatchSamples,
    BatchChannelSamples,
}

impl Default for AmbientModelInputLayout {
    fn default() -> (r: Self)
        ensures
            r == AmbientModelInputLayout::BatchSamples,
    {
        AmbientModelInputLayout::BatchSamples
    }
}

#[derive(Clone, Copy, Debug, PartialEq, Eq, Structural)]
pub enum AmbientModelOutputLayout {
    FramesSpeakers,
    BatchFramesSpeakers,
    BatchSpeakersFrames,
    EmbeddingVector,
    BatchEmbeddingVector,
}

impl Default for AmbientModelOutputLayout {
    fn default() -> (r: Self)
        ensures
            r == AmbientModelOutputLayout::BatchFramesSpeakers,
    {
        AmbientModelOutputLayout::BatchFramesSpeakers
    }
}

/// A file listed in the asset manifest.
pub struct AmbientDiarizationAssetFile {
    pub relative_path: String,
    pub sha256: Option<String>,
    pub required: bool,
}

pub fn default_sample_rate_hz() -> (r: usize)
    ensures
        r == 16_000,
{
    16_000
}

pub fn default_segmentation_window_ms() -> (r: u64)
    ensures
        r == 5_000,
{
    5_000
}

pub fn default_segmentation_hop_ms() -> (r: u64)
    ensures
        r == 2_500,
{
    2_500
}

pub fn default_frame_hop_ms() -> (r: u64)
    ensures
        r == 20,
{
    20
}

pub fn default_min_speech_ms() -> (r: u64)
    ensures
        r == 200,
{
    200
}

pub fn default_min_silence_ms() -> (r: u64)
    ensures
        r == 160,
{
    160
}

/// What SHA-256 gives for the bytes.
pub uninterp spec fn sha256_of(data: Seq<u8>) -> Seq<u8>;

/// Calls `sha2::Sha256::digest`: the SHA-256 digest of the bytes, named by `sha256_of`, which
/// is 32 bytes long. Nothing more of the digest is stated.
#[verifier::external_body]
fn sha256_digest(data: &[u8]) -> (r: Vec<u8>)
    ensures
        r@ == sha256_of(data@),
        r@.len() == 32,
{
    sha2::Sha256::digest(data).to_vec()
}

pub open spec fn hex_digit(n: u8) -> char {
    if n < 10 {
        ((n + 48) as u8) as char
    } else {
        ((n + 87) as u8) as char
    }
}

/// Lower-case hexadecimal: two digits per byte, high nibble first.
pub open spec fn hex_lower(data: Seq<u8>) -> Seq<char>
    decreases data.len(),
{
    if data.len() == 0 {
        Seq::empty()
    } else {
        hex_lower(data.drop_last()) + seq![hex_digit(data.last() / 16), hex_digit(data.last() % 16)]
    }
}

/// Calls `hex::encode`, which writes each byte as two lower-case hexadecimal digits, the
/// high nibble first.
#[verifier::external_body]
fn hex_encode(data: &[u8]) -> (r: String)
    ensures
        r@ == hex_lower(data@),
{
    hex::encode(data)
}

/// The SHA-256 checksum of the bytes as lower-case hex, as `sha256_file` writes it.
pub fn sha256_hex(data: &[u8]) -> (r: String)
    ensures
        r@ == hex_lower(sha256_of(data@)),
        r@.len() == 64,
{
    let digest = sha256_digest(data);
    proof {
        lemma_hex_len(digest@);
    }
    hex_encode(digest.as_slice())
}

pub proof fn lemma_hex_len(data: Seq<u8>)
    ensures
        hex_lower(data).len() == 2 * data.len(),
    decreases data.len(),
{
    if data.len() > 0 {
        lemma_hex_len(data.drop_last());
    }
}

/// A listed file with an expected checksum matches when the checksum of its bytes equals
/// the expected one in lower case; a file without one always matches.
pub open spec fn checksum_ok(expected: Option<Seq<char>>, data: Seq<u8>) -> bool {
    match expected {
        Some(e) => hex_lower(sha256_of(data)) == lower(e),
        None => true,
    }
}

pub fn file_checksum_matches(file: &AmbientDiarizationAssetFile, data: &[u8]) -> (r: bool)
    ensures
        r == checksum_ok(crate::markdown::opt_string_view(&file.sha256), data@),
{
    match &file.sha256 {
        Some(expected) => {
            let actual = sha256_hex(data);
            let a = to_chars(actual.as_str());
            let e = to_chars(expected.as_str());
            let el = to_lower(&e);
            chars_eq(&a, &el)
        },
        None => true,
    }
}

/// The manifest needs a format version and an asset version.
pub fn manifest_header_check(format_version: u32, asset_version: &str) -> (r: Result<(), String>)
    ensures
        format_version == 0 ==> (r matches Err(e) && e@
            == "Ambient diarization asset manifest is missing `format_version`."@),
        format_version != 0 && trim(asset_version@).len() == 0 ==> (r matches Err(e) && e@
            == "Ambient diarization asset manifest is missing `asset_version`."@),
        format_version != 0 && trim(asset_version@).len() > 0 ==> r is Ok,
{
    if format_version == 0 {
        return Err("Ambient diarization asset manifest is missing `format_version`.".to_string());
    }
    let v = to_chars(asset_version);
    let t = trimmed(&v, CharClass::Whitespace);
    if t.len() == 0 {
        return Err("Ambient diarization asset manifest is missing `asset_version`.".to_string());
    }
    Ok(())
}

/// `model_cache_dir`: the subdirectory name when one is given and not blank, else the
/// fallback.
pub fn cache_subdir<'a>(subdir: Option<&'a str>, fallback_name: &'a str) -> (r: &'a str)
    ensures
        r@ == match subdir {
            Some(s) => if trim(s@).len() > 0 {
                s@
            } else {
                fallback_name@
            },
            None => fallback_name@,
        },
{
    match subdir {
        Some(s) => {
            let c = to_chars(s);
            let t = trimmed(&c, CharClass::Whitespace);
            if t.len() > 0 {
                s
            } else {
                fallback_name
            }
        },
        None => fallback_name,
    }
}

/// The asset version in use: that of the installed assets when there are any, else the
/// built-in one; a failure to discover the assets is passed on.
pub fn discover_asset_version(discovered: Result<Option<String>, String>) -> (r: Result<
    String,
    String,
>)
    ensures
        match discovered {
            Ok(Some(v)) => r matches Ok(s) && s@ == v@,
            Ok(None) => r matches Ok(s) && s@ == BUILTIN_ASSET_VERSION@,
            Err(e) => r matches Err(x) && x@ == e@,
        },
{
    match discovered {
        Ok(Some(v)) => Ok(v),
        Ok(None) => Ok(BUILTIN_ASSET_VERSION.to_string()),
        Err(e) => Err(e),
    }
}

/// Of the version directories that hold a manifest, the one used: the last by name, in the
/// order of their characters; none where there is none.
pub fn latest_version_dir(names: &Vec<String>) -> (r: Option<usize>)
    ensures
        names@.len() == 0 <==> r is None,
        r matches Some(k) ==> k < names@.len() && forall|j: int|
            0 <= j < names@.len() ==> !crate::eval::chars_less(names@[k as int]@, (#[trigger] names@[j])@),
{
    if names.len() == 0 {
        return None;
    }
    let mut best: usize = 0;
    let mut best_chars = to_chars(names[0].as_str());
    let mut i: usize = 1;
    proof {
        crate::eval::lemma_chars_less_total(names@[0]@, names@[0]@);
    }
    while i < names.len()
        invariant
            1 <= i <= names@.len(),
            best < names@.len(),
            best_chars@ == names@[best as int]@,
            forall|j: int| 0 <= j < i ==> !crate::eval::chars_less(names@[best as int]@, (#[trigger] names@[j])@),
        decreases names@.len() - i,
    {
        let c = to_chars(names[i].as_str());
        if crate::eval::chars_less_exec(&best_chars, &c) {
            proof {
                assert forall|j: int| 0 <= j < i + 1 implies !crate::eval::chars_less(names@[i as int]@, (#[trigger] names@[j])@) by {
                    crate::eval::lemma_chars_less_total(names@[i as int]@, names@[j]@);
                    crate::eval::lemma_chars_less_total(names@[best as int]@, names@[j]@);
                    if crate::eval::chars_less(names@[i as int]@, names@[j]@) {
                        crate::eval::lemma_chars_less_trans(names@[best as int]@, names@[i as int]@, names@[j]@);
                    }
                }
            }
            best = i;
            best_chars = c;
        } else {
            proof {
                assert(!crate::eval::chars_less(names@[best as int]@, names@[i as int]@));
            }
        }
        i = i + 1;
    }
    Some(best)
}

/// The integer checks of a model entry of the pipeline: a relative path that is not blank,
/// a model file that is present (`present`, shown as `path_display`), and sample rate,
/// window, hop and frame hop that are not zero, in that order.
pub fn model_spec_check(
    label: &str,
    relative_path: &str,
    present: bool,
    path_display: &str,
    sample_rate_hz: usize,
    window_ms: u64,
    hop_ms: u64,
    frame_hop_ms: u64,
) -> (r: Result<(), String>)
    ensures
        trim(relative_path@).len() == 0 ==> (r matches Err(e) && e@ == "Ambient diarization "@
            + label@ + " model is missing `relative_path`."@),
        trim(relative_path@).len() > 0 && !present ==> (r matches Err(e) && e@
            == "Ambient diarization "@ + label@ + " model is missing: "@ + path_display@),
        trim(relative_path@).len() > 0 && present && sample_rate_hz == 0 ==> (r matches Err(e)
            && e@ == "Ambient diarization "@ + label@ + " model has an invalid `sample_rate_hz`."@),
        trim(relative_path@).len() > 0 && present && sample_rate_hz != 0 && window_ms == 0 ==> (
        r matches Err(e) && e@ == "Ambient diarization "@ + label@
            + " model has an invalid `window_ms`."@),
        trim(relative_path@).len() > 0 && present && sample_rate_hz != 0 && window_ms != 0
            && hop_ms == 0 ==> (r matches Err(e) && e@ == "Ambient diarization "@ + label@
            + " model has an invalid `hop_ms`."@),
        trim(relative_path@).len() > 0 && present && sample_rate_hz != 0 && window_ms != 0
            && hop_ms != 0 && frame_hop_ms == 0 ==> (r matches Err(e) && e@
            == "Ambient diarization "@ + label@ + " model has an invalid `frame_hop_ms`."@),
        trim(relative_path@).len() > 0 && present && sample_rate_hz != 0 && window_ms != 0
            && hop_ms != 0 && frame_hop_ms != 0 ==> r is Ok,
{
    let c = to_chars(relative_path);
    let t = trimmed(&c, CharClass::Whitespace);
    if t.len() == 0 {
        return Err(concat3("Ambient diarization ", label, " model is missing `relative_path`."));
    }
    if !present {
        let mut out = to_chars("Ambient diarization ");
        crate::text::append_vec(&mut out, &to_chars(label));
        crate::text::append_vec(&mut out, &to_chars(" model is missing: "));
        crate::text::append_vec(&mut out, &to_chars(path_display));
        return Err(from_chars(&out));
    }
    if sample_rate_hz == 0 {
        return Err(concat3("Ambient diarization ", label, " model has an invalid `sample_rate_hz`."));
    }
    if window_ms == 0 {
        return Err(concat3("Ambient diarization ", label, " model has an invalid `window_ms`."));
    }
    if hop_ms == 0 {
        return Err(concat3("Ambient diarization ", label, " model has an invalid `hop_ms`."));
    }
    if frame_hop_ms == 0 {
        return Err(concat3("Ambient diarization ", label, " model has an invalid `frame_hop_ms`."));
    }
    Ok(())
}

/// The check of one listed asset file: a missing file is an error only when it is
/// required; a present one with an expected checksum must match it (its bytes, or the
/// failure to read them, are given).
pub fn asset_file_check(
    file: &AmbientDiarizationAssetFile,
    path_display: &str,
    present: bool,
    contents: Option<Result<Vec<u8>, String>>,
) -> (r: Result<(), String>)
    requires
        present && file.sha256 is Some ==> contents is Some,
    ensures
        !present && file.required ==> (r matches Err(e) && e@
            == "Ambient diarization asset file is missing: "@ + path_display@),
        !present && !file.required ==> r is Ok,
        present && file.sha256 is None ==> r is Ok,
        present && file.sha256 is Some ==> match contents {
            Some(Err(e)) => r matches Err(x) && x@ == e@,
            Some(Ok(bytes)) => if checksum_ok(crate::markdown::opt_string_view(&file.sha256), bytes@) {
                r is Ok
            } else {
                r matches Err(x) && x@ == "Ambient diarization asset checksum mismatch for "@
                    + path_display@
            },
            None => false,
        },
{
    proof {
        reveal_strlit("");
    }
    if !present {
        if file.required {
            return Err(concat3("Ambient diarization asset file is missing: ", path_display, ""));
        }
        return Ok(());
    }
    if file.sha256.is_none() {
        return Ok(());
    }
    let ghost given = contents;
    match contents {
        Some(Err(e)) => {
            assert(given == Some(Err::<Vec<u8>, String>(e)));
            Err(e)
        },
        Some(Ok(bytes)) => {
            if file_checksum_matches(file, bytes.as_slice()) {
                Ok(())
            } else {
                Err(concat3("Ambient diarization asset checksum mismatch for ", path_display, ""))
            }
        },
        None => Ok(()),
    }
}

} // verus!
