//! Where the speech and summary models are looked for.
use vstd::prelude::*;
use crate::text::{append_vec, from_chars, to_chars};

verus! {

pub const DEFAULT_BUNDLED_SUMMARY_MODEL_ID: &'static str = "gemma-3-1b-it-q4_k_m";
pub const DEFAULT_BUNDLED_SUMMARY_MODEL_FILENAME: &'static str = "gemma-3-1b-it-q4_k_m.gguf";
pub const VISION_MODEL_FILENAME: &'static str = "gemma-3-4b-it-q4.gguf";
pub const VISION_MMPROJ_FILENAME: &'static str = "mmproj-gemma-3-4b-it-f16.gguf";

#[derive(Clone, Copy, Debug)]
pub struct SummaryModelInfo {
    pub id: &'static str,
    pub label: &'static str,
    pub filename: &'static str,
}

/// The summary models that ship with the app.
pub fn bundled_summary_models() -> (r: &'static [SummaryModelInfo])
    ensures
        r@.len() == 1,
        r@[0].id@ == DEFAULT_BUNDLED_SUMMARY_MODEL_ID@,
        r@[0].label@ == "Gemma 3 1B Instruct"@,
        r@[0].filename@ == DEFAULT_BUNDLED_SUMMARY_MODEL_FILENAME@,
{
    &[
        SummaryModelInfo {
            id: DEFAULT_BUNDLED_SUMMARY_MODEL_ID,
            label: "Gemma 3 1B Instruct",
            filename: DEFAULT_BUNDLED_SUMMARY_MODEL_FILENAME,
        },
    ]
}

pub fn bundled_summary_model() -> (r: Option<&'static SummaryModelInfo>)
    ensures
        r matches Some(m) && m.id@ == DEFAULT_BUNDLED_SUMMARY_MODEL_ID@ && m.filename@
            == DEFAULT_BUNDLED_SUMMARY_MODEL_FILENAME@,
{
    let models = bundled_summary_models();
    Some(&models[0])
}

pub open spec fn candidate_name(model_name: Seq<char>, suffix: Seq<char>) -> Seq<char> {
    "ggml-"@ + model_name + suffix
}

pub fn candidate(model_name: &str, suffix: &str) -> (r: String)
    ensures
        r@ == candidate_name(model_name@, suffix@),
{
    let mut out = to_chars("ggml-");
    let m = to_chars(model_name);
    let s = to_chars(suffix);
    append_vec(&mut out, &m);
    append_vec(&mut out, &s);
    from_chars(&out)
}

/// The file names a Whisper model may have: `ggml-NAME.en.bin`, `ggml-NAME.bin` and
/// `ggml-NAME-v3.bin`, in the order they are tried.
pub fn bundled_model_candidates(model_name: &str) -> (r: [String; 3])
    ensures
        r@[0]@ == candidate_name(model_name@, ".en.bin"@),
        r@[1]@ == candidate_name(model_name@, ".bin"@),
        r@[2]@ == candidate_name(model_name@, "-v3.bin"@),
{
    [candidate(model_name, ".en.bin"), candidate(model_name, ".bin"), candidate(model_name, "-v3.bin")]
}

/// `dir.join(name)` for a relative `name`.
pub open spec fn path_join(dir: Seq<char>, name: Seq<char>) -> Seq<char> {
    if dir.len() == 0 || dir.last() == '/' {
        dir + name
    } else {
        dir + seq!['/'] + name
    }
}

pub fn join_path(dir: &str, name: &str) -> (r: String)
    ensures
        r@ == path_join(dir@, name@),
{
    let mut out = to_chars(dir);
    let n = to_chars(name);
    let l = out.len();
    if !(l == 0 || out[l - 1] == '/') {
        out.push('/');
    }
    append_vec(&mut out, &n);
    from_chars(&out)
}

pub open spec fn opt_str_view(o: Option<&str>) -> Option<Seq<char>> {
    match o {
        Some(d) => Some(d@),
        None => None,
    }
}

/// The paths where a Whisper model is looked for, in order: each candidate name in the
/// bundle's models directory (when there is one), then under `models`.
pub open spec fn model_paths(name: Seq<char>, dir: Option<Seq<char>>) -> Seq<Seq<char>> {
    let c0 = candidate_name(name, ".en.bin"@);
    let c1 = candidate_name(name, ".bin"@);
    let c2 = candidate_name(name, "-v3.bin"@);
    let m = "models"@;
    match dir {
        Some(d) => seq![
            path_join(d, c0),
            path_join(m, c0),
            path_join(d, c1),
            path_join(m, c1),
            path_join(d, c2),
            path_join(m, c2),
        ],
        None => seq![path_join(m, c0), path_join(m, c1), path_join(m, c2)],
    }
}

pub fn model_search_paths(model_name: &str, bundle_models_dir: Option<&str>) -> (r: Vec<String>)
    ensures
        r@.map_values(|s: String| s@) == model_paths(model_name@, opt_str_view(bundle_models_dir)),
{
    let candidates = bundled_model_candidates(model_name);
    let mut out: Vec<String> = Vec::new();
    if let Some(d) = bundle_models_dir {
        out.push(join_path(d, candidates[0].as_str()));
    }
    out.push(join_path("models", candidates[0].as_str()));
    if let Some(d) = bundle_models_dir {
        out.push(join_path(d, candidates[1].as_str()));
    }
    out.push(join_path("models", candidates[1].as_str()));
    if let Some(d) = bundle_models_dir {
        out.push(join_path(d, candidates[2].as_str()));
    }
    out.push(join_path("models", candidates[2].as_str()));
    assert(out@.map_values(|s: String| s@) =~= model_paths(
        model_name@,
        opt_str_view(bundle_models_dir),
    ));
    out
}

/// The paths where a bundled summary model is looked for, bundle first; none for a model
/// id that is not bundled.
pub fn summary_model_search_paths(model_id: &str, bundle_summary_dir: Option<&str>) -> (r: Option<
    Vec<String>,
>)
    ensures
        model_id@ != DEFAULT_BUNDLED_SUMMARY_MODEL_ID@ ==> r is None,
        model_id@ == DEFAULT_BUNDLED_SUMMARY_MODEL_ID@ ==> (r matches Some(v) && match
            bundle_summary_dir {
            Some(d) => v@.len() == 2 && v@[0]@ == path_join(
                d@,
                DEFAULT_BUNDLED_SUMMARY_MODEL_FILENAME@,
            ) && v@[1]@ == path_join("models/summary"@, DEFAULT_BUNDLED_SUMMARY_MODEL_FILENAME@),
            None => v@.len() == 1 && v@[0]@ == path_join(
                "models/summary"@,
                DEFAULT_BUNDLED_SUMMARY_MODEL_FILENAME@,
            ),
        }),
{
    let models = bundled_summary_models();
    if !crate::text::str_eq(models[0].id, model_id) {
        return None;
    }
    let mut out: Vec<String> = Vec::new();
    if let Some(d) = bundle_summary_dir {
        out.push(join_path(d, models[0].filename));
    }
    out.push(join_path("models/summary", models[0].filename));
    Some(out)
}

/// Calls `std::path::Path::exists`: whether the file system has an entry at the path at
/// the moment of the call. The answer depends on the disk, so nothing is stated of it.
#[verifier::external_body]
fn path_exists(path: &str) -> (r: bool) {
    std::path::Path::new(path).exists()
}

/// The index of the first answer that is `true`.
pub open spec fn first_true(answers: Seq<bool>) -> Option<int>
    decreases answers.len(),
{
    if answers.len() == 0 {
        None
    } else if answers[0] {
        Some(0)
    } else {
        match first_true(answers.drop_first()) {
            Some(k) => Some(k + 1),
            None => None,
        }
    }
}

pub proof fn lemma_first_true(answers: Seq<bool>)
    ensures
        match first_true(answers) {
            Some(k) => 0 <= k < answers.len() && answers[k] && forall|j: int|
                0 <= j < k ==> !#[trigger] answers[j],
            None => forall|j: int| 0 <= j < answers.len() ==> !#[trigger] answers[j],
        },
    decreases answers.len(),
{
    if answers.len() > 0 && !answers[0] {
        let rest = answers.drop_first();
        lemma_first_true(rest);
        assert forall|j: int| 1 <= j < answers.len() implies answers[j] == rest[j - 1] by {}
    }
}

/// The first of the paths whose answer in `present` (one answer for each path checked, in
/// order) is `true`; none where no answer is.
pub fn first_present(paths: &Vec<String>, present: &Vec<bool>) -> (r: Option<String>)
    requires
        present@.len() <= paths@.len(),
    ensures
        match first_true(present@) {
            Some(k) => r matches Some(p) && p@ == paths@[k]@,
            None => r is None,
        },
{
    proof {
        lemma_first_true(present@);
    }
    let mut i: usize = 0;
    while i < present.len()
        invariant
            i <= present@.len() <= paths@.len(),
            forall|j: int| 0 <= j < i ==> !#[trigger] present@[j],
            match first_true(present@) {
                Some(k) => 0 <= k < present@.len() && present@[k] && forall|j: int|
                    0 <= j < k ==> !#[trigger] present@[j],
                None => forall|j: int| 0 <= j < present@.len() ==> !#[trigger] present@[j],
            },
        decreases present@.len() - i,
    {
        if present[i] {
            let p = paths[i].clone();
            proof {
                let k = first_true(present@)->0;
                if k < i {
                    assert(!present@[k]);
                } else if k > i {
                    assert(!present@[i as int]);
                }
            }
            return Some(p);
        }
        i = i + 1;
    }
    None
}

/// Checks the paths in order on disk, stopping at the first that is present, and returns
/// that one: `first_present` of the answers the disk gave. What the disk answers is not
/// stated, so of the result only this holds: it is one of the paths, and none where there
/// is no path.
pub fn first_existing_path(paths: &Vec<String>) -> (r: Option<String>)
    ensures
        r matches Some(p) ==> exists|k: int| 0 <= k < paths@.len() && p@ == (#[trigger] paths@[k])@,
        paths@.len() == 0 ==> r is None,
{
    let mut present: Vec<bool> = Vec::new();
    let mut found = false;
    let mut i: usize = 0;
    while i < paths.len() && !found
        invariant
            i <= paths@.len(),
            present@.len() == i,
        decreases paths@.len() - i,
    {
        let here = path_exists(paths[i].as_str());
        present.push(here);
        found = here;
        i = i + 1;
    }
    proof {
        lemma_first_true(present@);
    }
    let r = first_present(paths, &present);
    proof {
        if r is Some {
            let k = first_true(present@)->0;
            assert(0 <= k < paths@.len());
        }
    }
    r
}

/// A Whisper model on disk: the first of its search paths that is present.
pub fn find_model(model_name: &str, bundle_models_dir: Option<&str>) -> (r: Option<String>)
    ensures
        r matches Some(p) ==> model_paths(model_name@, opt_str_view(bundle_models_dir)).contains(
            p@,
        ),
{
    let paths = model_search_paths(model_name, bundle_models_dir);
    let r = first_existing_path(&paths);
    proof {
        if r is Some {
            let p = r->0;
            let k = choose|k: int| 0 <= k < paths@.len() && p@ == (#[trigger] paths@[k])@;
            assert(paths@.map_values(|s: String| s@)[k] == p@);
        }
    }
    r
}

/// The summary models directory inside the bundle's models directory.
pub fn current_bundle_summary_models_dir(bundle_models_dir: Option<&str>) -> (r: Option<String>)
    ensures
        crate::markdown::opt_string_view(&r) == match bundle_models_dir {
            Some(d) => Some(path_join(d@, "summary"@)),
            None => None,
        },
{
    match bundle_models_dir {
        Some(d) => Some(join_path(d, "summary")),
        None => None,
    }
}

/// A bundled summary model on disk, looked for in the bundle, then under `models/summary`;
/// never one for a model id that is not bundled.
pub fn find_summary_model(model_id: &str, bundle_summary_dir: Option<&str>) -> (r: Option<String>)
    ensures
        model_id@ != DEFAULT_BUNDLED_SUMMARY_MODEL_ID@ ==> r is None,
        r matches Some(p) ==> p@ == path_join("models/summary"@, DEFAULT_BUNDLED_SUMMARY_MODEL_FILENAME@)
            || (bundle_summary_dir matches Some(d) && p@ == path_join(
            d@,
            DEFAULT_BUNDLED_SUMMARY_MODEL_FILENAME@,
        )),
{
    match summary_model_search_paths(model_id, bundle_summary_dir) {
        Some(paths) => first_existing_path(&paths),
        None => None,
    }
}

/// Whether a bundled summary model is on disk.
pub fn summary_model_exists(model_id: &str, bundle_summary_dir: Option<&str>) -> (r: bool)
    ensures
        model_id@ != DEFAULT_BUNDLED_SUMMARY_MODEL_ID@ ==> !r,
{
    find_summary_model(model_id, bundle_summary_dir).is_some()
}

fn find_summary_file(bundle_summary_dir: Option<&str>, filename: &str) -> (r: Option<String>)
    ensures
        r matches Some(p) ==> p@ == path_join("models/summary"@, filename@) || (
        bundle_summary_dir matches Some(d) && p@ == path_join(d@, filename@)),
{
    let mut paths: Vec<String> = Vec::new();
    if let Some(d) = bundle_summary_dir {
        paths.push(join_path(d, filename));
    }
    paths.push(join_path("models/summary", filename));
    first_existing_path(&paths)
}

/// The vision model and its projector on disk, each looked for in the bundle's summary
/// directory, then under `models/summary`; none unless both are found.
pub fn find_vision_model(bundle_summary_dir: Option<&str>) -> (r: Option<(String, String)>)
    ensures
        r matches Some((m, p)) ==> (m@ == path_join("models/summary"@, VISION_MODEL_FILENAME@) || (
        bundle_summary_dir matches Some(d) && m@ == path_join(d@, VISION_MODEL_FILENAME@))) && (p@
            == path_join("models/summary"@, VISION_MMPROJ_FILENAME@) || (
        bundle_summary_dir matches Some(d) && p@ == path_join(d@, VISION_MMPROJ_FILENAME@))),
{
    let model = match find_summary_file(bundle_summary_dir, VISION_MODEL_FILENAME) {
        Some(m) => m,
        None => return None,
    };
    let mmproj = match find_summary_file(bundle_summary_dir, VISION_MMPROJ_FILENAME) {
        Some(p) => p,
        None => return None,
    };
    Some((model, mmproj))
}

} // verus!
