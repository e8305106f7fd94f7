//! What the controls of the settings window change in the settings: each list choice by its
//! index in the list that the control shows, each switch by its new state.
use vstd::prelude::*;
use crate::config::{
    ambient_final_backends, hotkey_ids, hotkey_index_for_id, hotkeys, index_of, lemma_index_of,
    model_ids, models, positions, vision_providers,
    AmbientFinalBackendPreference, AppAppearance, Config, OverlayPosition,
    SummaryBackendPreference, VisionProvider,
};
use crate::text::str_eq;

verus! {

/// The settings as values.
pub ghost struct ConfigView {
    pub model: Seq<char>,
    pub hotkey: Seq<char>,
    pub overlay_position: OverlayPosition,
    pub appearance: AppAppearance,
    pub live_transcription: bool,
    pub sound_effects: bool,
    pub ambient_microphone: bool,
    pub ambient_system_audio: bool,
    pub ambient_final_backend: AmbientFinalBackendPreference,
    pub summary_backend: SummaryBackendPreference,
    pub summary_ollama_model: Seq<char>,
    pub show_accessibility_helper_on_launch: bool,
    pub accessibility_helper_dismissed: bool,
    pub vision_hotkey: Seq<char>,
    pub vision_provider: VisionProvider,
    pub vision_openai_model: Seq<char>,
    pub vision_gemini_model: Seq<char>,
    pub vision_fast_screen_help: bool,
}

impl View for Config {
    type V = ConfigView;

    open spec fn view(&self) -> ConfigView {
        ConfigView {
            model: self.model@,
            hotkey: self.hotkey@,
            overlay_position: self.overlay_position,
            appearance: self.appearance,
            live_transcription: self.live_transcription,
            sound_effects: self.sound_effects,
            ambient_microphone: self.ambient_microphone,
            ambient_system_audio: self.ambient_system_audio,
            ambient_final_backend: self.ambient_final_backend,
            summary_backend: self.summary_backend,
            summary_ollama_model: self.summary_ollama_model@,
            show_accessibility_helper_on_launch: self.show_accessibility_helper_on_launch,
            accessibility_helper_dismissed: self.accessibility_helper_dismissed,
            vision_hotkey: self.vision_hotkey@,
            vision_provider: self.vision_provider,
            vision_openai_model: self.vision_openai_model@,
            vision_gemini_model: self.vision_gemini_model@,
            vision_fast_screen_help: self.vision_fast_screen_help,
        }
    }
}

/// A change asked for in the settings window.
pub enum SettingsChoice {
    /// The Whisper model at this index of the model list; `installed` says whether its model
    /// file was found.
    Model { index: usize, installed: bool },
    Hotkey(usize),
    VisionHotkey(usize),
    Position(usize),
    VisionProvider(usize),
    AmbientFinalBackend(usize),
    Appearance(AppAppearance),
    LiveTranscription(bool),
    SoundEffects(bool),
    AmbientMicrophone(bool),
    AmbientSystemAudio(bool),
    /// A summary model: its backend, and the Ollama model's name where the backend is Ollama.
    SummaryModel(SummaryBackendPreference, String),
    AccessibilityHelperDismissed(bool),
}

/// What became of a choice.
#[derive(Clone, Copy, Debug, PartialEq, Eq, Structural)]
pub enum SettingsOutcome {
    /// The index is past the end of its list: nothing changes.
    NoSuchEntry,
    /// The choice is the current setting: nothing changes.
    Unchanged,
    /// The chosen model is not installed: nothing changes, the user is told.
    ModelMissing,
    /// The settings changed and are to be saved.
    Changed,
}

pub open spec fn position_at(i: int) -> OverlayPosition {
    if i == 0 {
        OverlayPosition::Center
    } else if i == 1 {
        OverlayPosition::Top
    } else {
        OverlayPosition::Bottom
    }
}

pub open spec fn provider_at(i: int) -> VisionProvider {
    if i == 0 {
        VisionProvider::Local
    } else if i == 1 {
        VisionProvider::Openai
    } else {
        VisionProvider::Gemini
    }
}

pub open spec fn final_backend_at(i: int) -> AmbientFinalBackendPreference {
    if i == 0 {
        AmbientFinalBackendPreference::Native
    } else {
        AmbientFinalBackendPreference::NativeDiarization
    }
}

/// The outcome of a choice on settings `c`, and the settings after it.
pub open spec fn settings_after(c: ConfigView, choice: SettingsChoice) -> (SettingsOutcome, ConfigView) {
    match choice {
        SettingsChoice::Model { index, installed } => if index >= 3 {
            (SettingsOutcome::NoSuchEntry, c)
        } else if c.model == model_ids()[index as int] {
            (SettingsOutcome::Unchanged, c)
        } else if !installed {
            (SettingsOutcome::ModelMissing, c)
        } else {
            (SettingsOutcome::Changed, ConfigView { model: model_ids()[index as int], ..c })
        },
        SettingsChoice::Hotkey(index) => if index >= 7 {
            (SettingsOutcome::NoSuchEntry, c)
        } else if c.hotkey == hotkey_ids()[index as int] {
            (SettingsOutcome::Unchanged, c)
        } else {
            (SettingsOutcome::Changed, ConfigView { hotkey: hotkey_ids()[index as int], ..c })
        },
        SettingsChoice::VisionHotkey(index) => if index >= 7 {
            (SettingsOutcome::NoSuchEntry, c)
        } else if c.vision_hotkey == hotkey_ids()[index as int] {
            (SettingsOutcome::Unchanged, c)
        } else {
            (
                SettingsOutcome::Changed,
                ConfigView { vision_hotkey: hotkey_ids()[index as int], ..c },
            )
        },
        SettingsChoice::Position(index) => if index >= 3 {
            (SettingsOutcome::NoSuchEntry, c)
        } else {
            (
                SettingsOutcome::Changed,
                ConfigView { overlay_position: position_at(index as int), ..c },
            )
        },
        SettingsChoice::VisionProvider(index) => if index >= 3 {
            (SettingsOutcome::NoSuchEntry, c)
        } else if c.vision_provider == provider_at(index as int) {
            (SettingsOutcome::Unchanged, c)
        } else {
            (
                SettingsOutcome::Changed,
                ConfigView { vision_provider: provider_at(index as int), ..c },
            )
        },
        SettingsChoice::AmbientFinalBackend(index) => if index >= 2 {
            (SettingsOutcome::NoSuchEntry, c)
        } else if c.ambient_final_backend == final_backend_at(index as int) {
            (SettingsOutcome::Unchanged, c)
        } else {
            (
                SettingsOutcome::Changed,
                ConfigView { ambient_final_backend: final_backend_at(index as int), ..c },
            )
        },
        SettingsChoice::Appearance(a) => if c.appearance == a {
            (SettingsOutcome::Unchanged, c)
        } else {
            (SettingsOutcome::Changed, ConfigView { appearance: a, ..c })
        },
        SettingsChoice::LiveTranscription(on) => (
            SettingsOutcome::Changed,
            ConfigView { live_transcription: on, ..c },
        ),
        SettingsChoice::SoundEffects(on) => (
            SettingsOutcome::Changed,
            ConfigView { sound_effects: on, ..c },
        ),
        SettingsChoice::AmbientMicrophone(on) => (
            SettingsOutcome::Changed,
            ConfigView { ambient_microphone: on, ..c },
        ),
        SettingsChoice::AmbientSystemAudio(on) => (
            SettingsOutcome::Changed,
            ConfigView { ambient_system_audio: on, ..c },
        ),
        SettingsChoice::SummaryModel(backend, value) => (
            SettingsOutcome::Changed,
            if backend == SummaryBackendPreference::Ollama {
                ConfigView { summary_backend: backend, summary_ollama_model: value@, ..c }
            } else {
                ConfigView { summary_backend: backend, ..c }
            },
        ),
        SettingsChoice::AccessibilityHelperDismissed(d) => if c.accessibility_helper_dismissed
            == d {
            (SettingsOutcome::Unchanged, c)
        } else {
            (SettingsOutcome::Changed, ConfigView { accessibility_helper_dismissed: d, ..c })
        },
    }
}

/// Applies a choice of the settings window to the settings. Only a `Changed` outcome changes
/// them; it asks that they be saved.
#[verifier::spinoff_prover]
#[verifier::rlimit(60)]
pub fn apply_settings_choice(config: &mut Config, choice: SettingsChoice) -> (r: SettingsOutcome)
    ensures
        (r, final(config)@) == settings_after(old(config)@, choice),
{
    match choice {
        SettingsChoice::Model { index, installed } => {
            let list = models();
            if index >= list.len() {
                return SettingsOutcome::NoSuchEntry;
            }
            let id = list[index].id;
            if str_eq(config.model.as_str(), id) {
                return SettingsOutcome::Unchanged;
            }
            if !installed {
                return SettingsOutcome::ModelMissing;
            }
            config.model = id.to_string();
            SettingsOutcome::Changed
        },
        SettingsChoice::Hotkey(index) => {
            let list = hotkeys();
            if index >= list.len() {
                return SettingsOutcome::NoSuchEntry;
            }
            let id = list[index].id;
            if str_eq(config.hotkey.as_str(), id) {
                return SettingsOutcome::Unchanged;
            }
            config.hotkey = id.to_string();
            SettingsOutcome::Changed
        },
        SettingsChoice::VisionHotkey(index) => {
            let list = hotkeys();
            if index >= list.len() {
                return SettingsOutcome::NoSuchEntry;
            }
            let id = list[index].id;
            if str_eq(config.vision_hotkey.as_str(), id) {
                return SettingsOutcome::Unchanged;
            }
            config.vision_hotkey = id.to_string();
            SettingsOutcome::Changed
        },
        SettingsChoice::Position(index) => {
            let list = positions();
            if index >= list.len() {
                return SettingsOutcome::NoSuchEntry;
            }
            config.overlay_position = list[index].id;
            SettingsOutcome::Changed
        },
        SettingsChoice::VisionProvider(index) => {
            let list = vision_providers();
            if index >= list.len() {
                return SettingsOutcome::NoSuchEntry;
            }
            let id = list[index].id;
            if config.vision_provider == id {
                return SettingsOutcome::Unchanged;
            }
            config.vision_provider = id;
            SettingsOutcome::Changed
        },
        SettingsChoice::AmbientFinalBackend(index) => {
            let list = ambient_final_backends();
            if index >= list.len() {
                return SettingsOutcome::NoSuchEntry;
            }
            let id = list[index].id;
            if config.ambient_final_backend == id {
                return SettingsOutcome::Unchanged;
            }
            config.ambient_final_backend = id;
            SettingsOutcome::Changed
        },
        SettingsChoice::Appearance(a) => {
            if config.appearance == a {
                return SettingsOutcome::Unchanged;
            }
            config.appearance = a;
            SettingsOutcome::Changed
        },
        SettingsChoice::LiveTranscription(on) => {
            config.live_transcription = on;
            SettingsOutcome::Changed
        },
        SettingsChoice::SoundEffects(on) => {
            config.sound_effects = on;
            SettingsOutcome::Changed
        },
        SettingsChoice::AmbientMicrophone(on) => {
            config.ambient_microphone = on;
            SettingsOutcome::Changed
        },
        SettingsChoice::AmbientSystemAudio(on) => {
            config.ambient_system_audio = on;
            SettingsOutcome::Changed
        },
        SettingsChoice::SummaryModel(backend, value) => {
            config.summary_backend = backend;
            if backend == SummaryBackendPreference::Ollama {
                config.summary_ollama_model = value;
            }
            SettingsOutcome::Changed
        },
        SettingsChoice::AccessibilityHelperDismissed(d) => {
            if config.accessibility_helper_dismissed == d {
                return SettingsOutcome::Unchanged;
            }
            config.accessibility_helper_dismissed = d;
            SettingsOutcome::Changed
        },
    }
}


/// A choice that is refused, or that names the current setting, leaves the settings as they
/// were; and a choice made twice changes nothing the second time.
pub proof fn lemma_settings_choice_laws(c: ConfigView, choice: SettingsChoice)
    ensures
        settings_after(c, choice).0 != SettingsOutcome::Changed ==> settings_after(c, choice).1
            == c,
        settings_after(settings_after(c, choice).1, choice).1 == settings_after(c, choice).1,
{
}


/// Which entry of each list the settings window shows as chosen.
#[derive(Clone, Copy, Debug, PartialEq, Eq, Structural)]
pub struct SettingsSelection {
    pub model: Option<usize>,
    pub hotkey: Option<usize>,
    pub position: usize,
    pub appearance_segment: usize,
    pub final_backend: usize,
}

pub open spec fn found_at(k: int) -> Option<usize> {
    if k >= 0 {
        Some(k as usize)
    } else {
        None
    }
}

pub open spec fn selection_of(c: ConfigView) -> SettingsSelection {
    SettingsSelection {
        model: found_at(index_of(model_ids(), c.model)),
        hotkey: found_at(index_of(hotkey_ids(), c.hotkey)),
        position: match c.overlay_position {
            OverlayPosition::Center => 0,
            OverlayPosition::Top => 1,
            OverlayPosition::Bottom => 2,
        },
        appearance_segment: match c.appearance {
            AppAppearance::Light => 1,
            AppAppearance::Dark => 0,
        },
        final_backend: match c.ambient_final_backend {
            AmbientFinalBackendPreference::Native => 0,
            AmbientFinalBackendPreference::NativeDiarization => 1,
        },
    }
}

fn hotkey_position(id: &str) -> (r: Option<usize>)
    ensures
        r == found_at(index_of(hotkey_ids(), id@)),
{
    proof {
        lemma_index_of(hotkey_ids(), id@);
    }
    let k = hotkey_index_for_id(id);
    let table = hotkeys();
    if str_eq(table[k].id, id) {
        Some(k)
    } else {
        None
    }
}

/// The entries that the settings window shows as chosen for these settings: the model and the
/// dictation key where the settings name one of the list, the overlay position, the
/// appearance (0 for dark, 1 for light) and the final-pass backend.
pub fn settings_selection(config: &Config) -> (r: SettingsSelection)
    ensures
        r == selection_of(config@),
{
    let model = crate::ui::model_index(config.model.as_str());
    let hotkey = hotkey_position(config.hotkey.as_str());
    let position: usize = match config.overlay_position {
        OverlayPosition::Center => 0,
        OverlayPosition::Top => 1,
        OverlayPosition::Bottom => 2,
    };
    let appearance_segment: usize = match config.appearance {
        AppAppearance::Light => 1,
        AppAppearance::Dark => 0,
    };
    let final_backend: usize = match config.ambient_final_backend {
        AmbientFinalBackendPreference::Native => 0,
        AmbientFinalBackendPreference::NativeDiarization => 1,
    };
    SettingsSelection { model, hotkey, position, appearance_segment, final_backend }
}

proof fn lemma_ids_distinct()
    ensures
        forall|i: int, j: int| 0 <= i < j < 7 ==> hotkey_ids()[i] != hotkey_ids()[j],
        forall|i: int, j: int| 0 <= i < j < 3 ==> model_ids()[i] != model_ids()[j],
{
    reveal_strlit("left_control");
    reveal_strlit("right_control");
    reveal_strlit("left_option");
    reveal_strlit("right_option");
    reveal_strlit("left_command");
    reveal_strlit("right_command");
    reveal_strlit("fn");
    reveal_strlit("tiny");
    reveal_strlit("base");
    reveal_strlit("small");
    let h = hotkey_ids();
    assert forall|i: int, j: int| 0 <= i < j < 7 implies h[i] != h[j] by {
        if h[i] == h[j] {
            assert(h[i].len() == h[j].len() && h[i][0] == h[j][0] && h[i][7] == h[j][7] && h[i][8]
                == h[j][8]);
        }
    }
    let m = model_ids();
    assert forall|i: int, j: int| 0 <= i < j < 3 implies m[i] != m[j] by {
        if m[i] == m[j] {
            assert(m[i][0] == m[j][0]);
        }
    }
}

proof fn lemma_index_of_distinct(ids: Seq<Seq<char>>, i: int)
    requires
        0 <= i < ids.len(),
        forall|a: int, b: int| 0 <= a < b < ids.len() ==> ids[a] != ids[b],
    ensures
        index_of(ids, ids[i]) == i,
{
    lemma_index_of(ids, ids[i]);
}

/// What the settings window shows after a choice: the chosen entry of each list whose choice
/// was taken.
pub proof fn lemma_choice_shows_in_selection(c: ConfigView, choice: SettingsChoice)
    ensures
        settings_after(c, choice).0 == SettingsOutcome::Changed ==> match choice {
            SettingsChoice::Model { index, installed: _ } => selection_of(
                settings_after(c, choice).1,
            ).model == Some(index),
            SettingsChoice::Hotkey(index) => selection_of(settings_after(c, choice).1).hotkey
                == Some(index),
            SettingsChoice::Position(index) => selection_of(settings_after(c, choice).1).position
                == index,
            SettingsChoice::AmbientFinalBackend(index) => selection_of(
                settings_after(c, choice).1,
            ).final_backend == index,
            _ => true,
        },
{
    lemma_ids_distinct();
    match choice {
        SettingsChoice::Model { index, installed: _ } => {
            if index < 3 {
                lemma_index_of_distinct(model_ids(), index as int);
            }
        },
        SettingsChoice::Hotkey(index) => {
            if index < 7 {
                lemma_index_of_distinct(hotkey_ids(), index as int);
            }
        },
        _ => {},
    }
}


/// A summary model that the summary popup offers.
pub struct SummaryModelOption {
    pub label: String,
    pub backend: SummaryBackendPreference,
    pub value: String,
}

/// Whether an option is the one the settings name: the bundled model for the bundled backend,
/// the Ollama model of that name for Ollama.
pub open spec fn option_matches(o: SummaryModelOption, c: ConfigView) -> bool {
    match c.summary_backend {
        SummaryBackendPreference::Bundled => o.backend == SummaryBackendPreference::Bundled,
        SummaryBackendPreference::Ollama => o.backend == SummaryBackendPreference::Ollama
            && o.value@ == c.summary_ollama_model,
    }
}

/// The summary option shown as chosen: the first that the settings name, else the first.
pub fn summary_option_index(options: &Vec<SummaryModelOption>, config: &Config) -> (r: usize)
    ensures
        (exists|k: int| 0 <= k < options@.len() && option_matches(#[trigger] options@[k], config@))
            ==> r < options@.len() && option_matches(options@[r as int], config@) && forall|k: int|
            0 <= k < r ==> !option_matches(#[trigger] options@[k], config@),
        !(exists|k: int| 0 <= k < options@.len() && option_matches(#[trigger] options@[k], config@))
            ==> r == 0,
{
    let mut i: usize = 0;
    while i < options.len()
        invariant
            i <= options@.len(),
            forall|k: int| 0 <= k < i ==> !option_matches(#[trigger] options@[k], config@),
        decreases options@.len() - i,
    {
        let o = &options[i];
        let matched = match config.summary_backend {
            SummaryBackendPreference::Bundled => o.backend == SummaryBackendPreference::Bundled,
            SummaryBackendPreference::Ollama => o.backend == SummaryBackendPreference::Ollama
                && str_eq(o.value.as_str(), config.summary_ollama_model.as_str()),
        };
        if matched {
            return i;
        }
        i = i + 1;
    }
    0
}

} // verus!
