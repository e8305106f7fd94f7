//! User settings, the choices offered for them, and their normalization.
use vstd::prelude::*;
use crate::text::{str_eq, to_chars, trim, trim_bounds, CharClass};

verus! {

#[derive(Debug, Clone, Copy, PartialEq, Eq, Structural)]
pub enum OverlayPosition {
    Center,
    Top,
    Bottom,
}

#[derive(Debug, Clone, Copy, PartialEq, Eq, Structural)]
pub enum AppAppearance {
    Dark,
    Light,
}

#[derive(Debug, Clone, Copy, PartialEq, Eq, Structural)]
pub enum SummaryBackendPreference {
    Bundled,
    Ollama,
}

/// Where multimodal screen help runs: local Gemma or a cloud API.
#[derive(Debug, Clone, Copy, PartialEq, Eq, Structural)]
pub enum VisionProvider {
    Local,
    Openai,
    Gemini,
}

#[derive(Debug, Clone, Copy, PartialEq, Eq, Structural)]
pub enum AmbientFinalBackendPreference {
    Native,
    NativeDiarization,
}

impl AmbientFinalBackendPreference {
    /// The name stored in the settings file.
    pub fn as_str(self) -> (r: &'static str)
        ensures
            r@ == match self {
                AmbientFinalBackendPreference::Native => "native"@,
                AmbientFinalBackendPreference::NativeDiarization => "native_diarization"@,
            },
    {
        match self {
            AmbientFinalBackendPreference::Native => "native",
            AmbientFinalBackendPreference::NativeDiarization => "native_diarization",
        }
    }

    /// The backend a stored name selects: "native", or "native_diarization" and its legacy
    /// alias "whisperx_hybrid"; any other name is refused.
    pub fn from_stored(value: &str) -> (r: Option<AmbientFinalBackendPreference>)
        ensures
            r == (if value@ == "native"@ {
                Some(AmbientFinalBackendPreference::Native)
            } else if value@ == "native_diarization"@ || value@ == "whisperx_hybrid"@ {
                Some(AmbientFinalBackendPreference::NativeDiarization)
            } else {
                None::<AmbientFinalBackendPreference>
            }),
    {
        if str_eq(value, "native") {
            Some(AmbientFinalBackendPreference::Native)
        } else if str_eq(value, "native_diarization") || str_eq(value, "whisperx_hybrid") {
            Some(AmbientFinalBackendPreference::NativeDiarization)
        } else {
            None
        }
    }
}

pub struct VisionProviderInfo {
    pub id: VisionProvider,
    pub label: &'static str,
}

pub struct PositionInfo {
    pub id: OverlayPosition,
    pub label: &'static str,
}

pub struct AppearanceInfo {
    pub id: AppAppearance,
    pub label: &'static str,
}

pub struct AmbientFinalBackendInfo {
    pub id: AmbientFinalBackendPreference,
    pub label: &'static str,
}

pub struct ModelInfo {
    pub id: &'static str,
    pub label: &'static str,
    pub size: &'static str,
}

pub struct HotkeyInfo {
    pub id: &'static str,
    pub label: &'static str,
    pub modifier_flag: u64,
    pub device_flag: u64,
}

pub fn vision_providers() -> (r: &'static [VisionProviderInfo])
    ensures
        r@.len() == 3,
        r@[0].id == VisionProvider::Local && r@[0].label@ == "Local (Gemma on-device)"@,
        r@[1].id == VisionProvider::Openai && r@[1].label@ == "OpenAI (cloud)"@,
        r@[2].id == VisionProvider::Gemini && r@[2].label@ == "Google Gemini (cloud)"@,
{
    &[
        VisionProviderInfo { id: VisionProvider::Local, label: "Local (Gemma on-device)" },
        VisionProviderInfo { id: VisionProvider::Openai, label: "OpenAI (cloud)" },
        VisionProviderInfo { id: VisionProvider::Gemini, label: "Google Gemini (cloud)" },
    ]
}

pub fn positions() -> (r: &'static [PositionInfo])
    ensures
        r@.len() == 3,
        r@[0].id == OverlayPosition::Center && r@[0].label@ == "Center"@,
        r@[1].id == OverlayPosition::Top && r@[1].label@ == "Top"@,
        r@[2].id == OverlayPosition::Bottom && r@[2].label@ == "Bottom"@,
{
    &[
        PositionInfo { id: OverlayPosition::Center, label: "Center" },
        PositionInfo { id: OverlayPosition::Top, label: "Top" },
        PositionInfo { id: OverlayPosition::Bottom, label: "Bottom" },
    ]
}

pub fn appearances() -> (r: &'static [AppearanceInfo])
    ensures
        r@.len() == 2,
        r@[0].id == AppAppearance::Dark && r@[0].label@ == "Dark"@,
        r@[1].id == AppAppearance::Light && r@[1].label@ == "Light"@,
{
    &[
        AppearanceInfo { id: AppAppearance::Dark, label: "Dark" },
        AppearanceInfo { id: AppAppearance::Light, label: "Light" },
    ]
}

pub fn ambient_final_backends() -> (r: &'static [AmbientFinalBackendInfo])
    ensures
        r@.len() == 2,
        r@[0].id == AmbientFinalBackendPreference::Native && r@[0].label@ == "Native"@,
        r@[1].id == AmbientFinalBackendPreference::NativeDiarization && r@[1].label@
            == "Native Diarization"@,
{
    &[
        AmbientFinalBackendInfo { id: AmbientFinalBackendPreference::Native, label: "Native" },
        AmbientFinalBackendInfo {
            id: AmbientFinalBackendPreference::NativeDiarization,
            label: "Native Diarization",
        },
    ]
}

pub open spec fn model_ids() -> Seq<Seq<char>> {
    seq!["tiny"@, "base"@, "small"@]
}

/// The Whisper models offered.
pub fn models() -> (r: &'static [ModelInfo])
    ensures
        r@.len() == 3,
        forall|k: int| 0 <= k < 3 ==> (#[trigger] r@[k]).id@ == model_ids()[k],
        r@[0].label@ == "Tiny"@ && r@[0].size@ == "75 MB"@,
        r@[1].label@ == "Base"@ && r@[1].size@ == "142 MB"@,
        r@[2].label@ == "Small"@ && r@[2].size@ == "466 MB"@,
{
    &[
        ModelInfo { id: "tiny", label: "Tiny", size: "75 MB" },
        ModelInfo { id: "base", label: "Base", size: "142 MB" },
        ModelInfo { id: "small", label: "Small", size: "466 MB" },
    ]
}

pub open spec fn hotkey_ids() -> Seq<Seq<char>> {
    seq![
        "left_control"@,
        "right_control"@,
        "left_option"@,
        "right_option"@,
        "left_command"@,
        "right_command"@,
        "fn"@,
    ]
}

/// The keys that can be held to dictate or to ask for screen help.
pub fn hotkeys() -> (r: &'static [HotkeyInfo])
    ensures
        r@.len() == 7,
        forall|k: int| 0 <= k < 7 ==> (#[trigger] r@[k]).id@ == hotkey_ids()[k],
        r@[0].label@ == "Left Control ⌃"@ && r@[0].modifier_flag == 0x00040000
            && r@[0].device_flag == 0x00000001,
        r@[1].label@ == "Right Control ⌃"@ && r@[1].modifier_flag == 0x00040000
            && r@[1].device_flag == 0x00002000,
        r@[2].label@ == "Left Option ⌥"@ && r@[2].modifier_flag == 0x00080000
            && r@[2].device_flag == 0x00000020,
        r@[3].label@ == "Right Option ⌥"@ && r@[3].modifier_flag == 0x00080000
            && r@[3].device_flag == 0x00000040,
        r@[4].label@ == "Left Command ⌘"@ && r@[4].modifier_flag == 0x00100000
            && r@[4].device_flag == 0x00000008,
        r@[5].label@ == "Right Command ⌘"@ && r@[5].modifier_flag == 0x00100000
            && r@[5].device_flag == 0x00000010,
        r@[6].label@ == "Fn (Globe) 🌐"@ && r@[6].modifier_flag == 0x00800000
            && r@[6].device_flag == 0,
{
    &[
        HotkeyInfo {
            id: "left_control",
            label: "Left Control ⌃",
            modifier_flag: 0x00040000,
            device_flag: 0x00000001,
        },
        HotkeyInfo {
            id: "right_control",
            label: "Right Control ⌃",
            modifier_flag: 0x00040000,
            device_flag: 0x00002000,
        },
        HotkeyInfo {
            id: "left_option",
            label: "Left Option ⌥",
            modifier_flag: 0x00080000,
            device_flag: 0x00000020,
        },
        HotkeyInfo {
            id: "right_option",
            label: "Right Option ⌥",
            modifier_flag: 0x00080000,
            device_flag: 0x00000040,
        },
        HotkeyInfo {
            id: "left_command",
            label: "Left Command ⌘",
            modifier_flag: 0x00100000,
            device_flag: 0x00000008,
        },
        HotkeyInfo {
            id: "right_command",
            label: "Right Command ⌘",
            modifier_flag: 0x00100000,
            device_flag: 0x00000010,
        },
        HotkeyInfo { id: "fn", label: "Fn (Globe) 🌐", modifier_flag: 0x00800000, device_flag: 0 },
    ]
}

/// Index of the first entry of `ids` equal to `id`, or -1.
pub open spec fn index_of(ids: Seq<Seq<char>>, id: Seq<char>) -> int
    decreases ids.len(),
{
    if ids.len() == 0 {
        -1
    } else if ids[0] == id {
        0
    } else {
        let r = index_of(ids.drop_first(), id);
        if r < 0 {
            -1
        } else {
            r + 1
        }
    }
}

pub proof fn lemma_index_of(ids: Seq<Seq<char>>, id: Seq<char>)
    ensures
        index_of(ids, id) >= 0 <==> ids.contains(id),
        index_of(ids, id) >= 0 ==> index_of(ids, id) < ids.len() && ids[index_of(ids, id)] == id,
        index_of(ids, id) >= -1,
        forall|k: int| 0 <= k < index_of(ids, id) ==> ids[k] != id,
        index_of(ids, id) < 0 ==> forall|k: int| 0 <= k < ids.len() ==> ids[k] != id,
    decreases ids.len(),
{
    if ids.len() > 0 && ids[0] != id {
        lemma_index_of(ids.drop_first(), id);
        assert forall|k: int| 1 <= k < ids.len() implies ids[k] == ids.drop_first()[k - 1] by {}
        if ids.drop_first().contains(id) {
            let j = choose|j: int| 0 <= j < ids.drop_first().len() && ids.drop_first()[j] == id;
            assert(ids[j + 1] == id);
        }
        if ids.contains(id) {
            let j = choose|j: int| 0 <= j < ids.len() && ids[j] == id;
            assert(ids.drop_first()[j - 1] == id);
        }
    } else if ids.len() > 0 {
        assert(ids[0] == id);
    }
}

/// Position of the hotkey with this id, the first one when there is none
/// (`hotkey_index_for_id`).
pub open spec fn hotkey_index(id: Seq<char>) -> int {
    let k = index_of(hotkey_ids(), id);
    if k >= 0 {
        k
    } else {
        0
    }
}

pub fn hotkey_index_for_id(hotkey_id: &str) -> (r: usize)
    ensures
        r == hotkey_index(hotkey_id@),
        r < 7,
{
    let table = hotkeys();
    let mut i: usize = 0;
    proof {
        lemma_index_of(hotkey_ids(), hotkey_id@);
    }
    while i < table.len()
        invariant
            table@.len() == 7,
            forall|k: int| 0 <= k < 7 ==> (#[trigger] table@[k]).id@ == hotkey_ids()[k],
            i <= 7,
            forall|k: int| 0 <= k < i ==> hotkey_ids()[k] != hotkey_id@,
            index_of(hotkey_ids(), hotkey_id@) >= 0 ==> index_of(hotkey_ids(), hotkey_id@) < 7
                && hotkey_ids()[index_of(hotkey_ids(), hotkey_id@)] == hotkey_id@,
            forall|k: int|
                0 <= k < index_of(hotkey_ids(), hotkey_id@) ==> hotkey_ids()[k] != hotkey_id@,
            index_of(hotkey_ids(), hotkey_id@) < 0 ==> forall|k: int|
                0 <= k < 7 ==> hotkey_ids()[k] != hotkey_id@,
            index_of(hotkey_ids(), hotkey_id@) >= -1,
        decreases 7 - i,
    {
        if str_eq(table[i].id, hotkey_id) {
            return i;
        }
        i = i + 1;
    }
    0
}

/// The settings.
#[derive(Clone, Debug)]
pub struct Config {
    pub model: String,
    pub hotkey: String,
    pub overlay_position: OverlayPosition,
    pub appearance: AppAppearance,
    pub live_transcription: bool,
    pub sound_effects: bool,
    pub ambient_microphone: bool,
    pub ambient_system_audio: bool,
    pub ambient_final_backend: AmbientFinalBackendPreference,
    pub summary_backend: SummaryBackendPreference,
    pub summary_ollama_model: String,
    pub show_accessibility_helper_on_launch: bool,
    pub accessibility_helper_dismissed: bool,
    pub vision_hotkey: String,
    pub vision_provider: VisionProvider,
    pub vision_openai_model: String,
    pub vision_gemini_model: String,
    /// When true, Screen help runs only the main answer vision call. Skips the second
    /// localization pass (extra cloud round-trip or local helper run) that places the arrow;
    /// highlights fall back to heuristics from the spoken answer text.
    pub vision_fast_screen_help: bool,
}

impl Default for Config {
    fn default() -> (r: Self)
        ensures
            r.model@ == "base"@,
            r.hotkey@ == "left_control"@,
            r.overlay_position == OverlayPosition::Center,
            r.appearance == AppAppearance::Dark,
            r.live_transcription,
            r.sound_effects,
            r.ambient_microphone,
            r.ambient_system_audio,
            r.ambient_final_backend == AmbientFinalBackendPreference::Native,
            r.summary_backend == SummaryBackendPreference::Bundled,
            r.summary_ollama_model@ == "gemma4:latest"@,
            r.show_accessibility_helper_on_launch,
            !r.accessibility_helper_dismissed,
            r.vision_hotkey@ == "left_option"@,
            r.vision_provider == VisionProvider::Local,
            r.vision_openai_model@ == "gpt-4o-mini"@,
            r.vision_gemini_model@ == "gemini-3.1-pro-preview"@,
            !r.vision_fast_screen_help,
    {
        Config {
            model: "base".to_string(),
            hotkey: "left_control".to_string(),
            overlay_position: OverlayPosition::Center,
            appearance: AppAppearance::Dark,
            live_transcription: true,
            sound_effects: true,
            ambient_microphone: true,
            ambient_system_audio: true,
            ambient_final_backend: AmbientFinalBackendPreference::Native,
            summary_backend: SummaryBackendPreference::Bundled,
            summary_ollama_model: "gemma4:latest".to_string(),
            show_accessibility_helper_on_launch: true,
            accessibility_helper_dismissed: false,
            vision_hotkey: "left_option".to_string(),
            vision_provider: VisionProvider::Local,
            vision_openai_model: "gpt-4o-mini".to_string(),
            vision_gemini_model: "gemini-3.1-pro-preview".to_string(),
            vision_fast_screen_help: false,
        }
    }
}

pub fn is_blank(s: &String) -> (r: bool)
    ensures
        r == (trim(s@).len() == 0),
{
    let c = to_chars(s.as_str());
    let (a, b) = trim_bounds(&c, 0, c.len(), CharClass::Whitespace);
    assert(c@.subrange(0, c@.len() as int) =~= c@);
    a == b
}

pub fn known_model(id: &String) -> (r: bool)
    ensures
        r == model_ids().contains(id@),
{
    let table = models();
    let mut i: usize = 0;
    while i < table.len()
        invariant
            table@.len() == 3,
            forall|k: int| 0 <= k < 3 ==> (#[trigger] table@[k]).id@ == model_ids()[k],
            i <= 3,
            forall|k: int| 0 <= k < i ==> model_ids()[k] != id@,
        decreases 3 - i,
    {
        if str_eq(table[i].id, id.as_str()) {
            assert(model_ids()[i as int] == id@);
            return true;
        }
        i = i + 1;
    }
    false
}

pub fn known_hotkey(id: &String) -> (r: bool)
    ensures
        r == hotkey_ids().contains(id@),
{
    let table = hotkeys();
    let mut i: usize = 0;
    while i < table.len()
        invariant
            table@.len() == 7,
            forall|k: int| 0 <= k < 7 ==> (#[trigger] table@[k]).id@ == hotkey_ids()[k],
            i <= 7,
            forall|k: int| 0 <= k < i ==> hotkey_ids()[k] != id@,
        decreases 7 - i,
    {
        if str_eq(table[i].id, id.as_str()) {
            assert(hotkey_ids()[i as int] == id@);
            return true;
        }
        i = i + 1;
    }
    false
}

/// The setting kept by `normalized`: the value when it is valid, else the default.
pub open spec fn keep_or(valid: bool, value: Seq<char>, default: Seq<char>) -> Seq<char> {
    if valid {
        value
    } else {
        default
    }
}

/// The settings that `Config::normalized` may change are all valid.
pub open spec fn config_is_normal(c: &Config) -> bool {
    &&& model_ids().contains(c.model@)
    &&& hotkey_ids().contains(c.hotkey@)
    &&& trim(c.summary_ollama_model@).len() > 0
    &&& hotkey_ids().contains(c.vision_hotkey@)
    &&& trim(c.vision_openai_model@).len() > 0
    &&& trim(c.vision_gemini_model@).len() > 0
}

pub fn keep_model(m: String) -> (r: String)
    ensures
        r@ == keep_or(model_ids().contains(m@), m@, "base"@),
{
    if known_model(&m) {
        m
    } else {
        "base".to_string()
    }
}

pub fn keep_hotkey(h: String, default: &str) -> (r: String)
    ensures
        r@ == keep_or(hotkey_ids().contains(h@), h@, default@),
{
    if known_hotkey(&h) {
        h
    } else {
        default.to_string()
    }
}

pub fn keep_filled(v: String, default: &str) -> (r: String)
    ensures
        r@ == keep_or(trim(v@).len() > 0, v@, default@),
{
    if is_blank(&v) {
        default.to_string()
    } else {
        v
    }
}

impl Config {
    /// Replaces an unknown model or hotkey, and a blank model name, with the default.
    pub fn normalized(self) -> (r: Self)
        ensures
            r.model@ == keep_or(model_ids().contains(self.model@), self.model@, "base"@),
            r.hotkey@ == keep_or(hotkey_ids().contains(self.hotkey@), self.hotkey@, "left_control"@),
            r.summary_ollama_model@ == keep_or(
                trim(self.summary_ollama_model@).len() > 0,
                self.summary_ollama_model@,
                "gemma4:latest"@,
            ),
            r.vision_hotkey@ == keep_or(
                hotkey_ids().contains(self.vision_hotkey@),
                self.vision_hotkey@,
                "left_option"@,
            ),
            r.vision_openai_model@ == keep_or(
                trim(self.vision_openai_model@).len() > 0,
                self.vision_openai_model@,
                "gpt-4o-mini"@,
            ),
            r.vision_gemini_model@ == keep_or(
                trim(self.vision_gemini_model@).len() > 0,
                self.vision_gemini_model@,
                "gemini-3.1-pro-preview"@,
            ),
            r.overlay_position == self.overlay_position,
            r.appearance == self.appearance,
            r.live_transcription == self.live_transcription,
            r.sound_effects == self.sound_effects,
            r.ambient_microphone == self.ambient_microphone,
            r.ambient_system_audio == self.ambient_system_audio,
            r.ambient_final_backend == self.ambient_final_backend,
            r.summary_backend == self.summary_backend,
            r.show_accessibility_helper_on_launch == self.show_accessibility_helper_on_launch,
            r.accessibility_helper_dismissed == self.accessibility_helper_dismissed,
            r.vision_provider == self.vision_provider,
            r.vision_fast_screen_help == self.vision_fast_screen_help,
    {
        let model = keep_model(self.model);
        let hotkey = keep_hotkey(self.hotkey, "left_control");
        let summary_ollama_model = keep_filled(self.summary_ollama_model, "gemma4:latest");
        let vision_hotkey = keep_hotkey(self.vision_hotkey, "left_option");
        let vision_openai_model = keep_filled(self.vision_openai_model, "gpt-4o-mini");
        let vision_gemini_model = keep_filled(self.vision_gemini_model, "gemini-3.1-pro-preview");
        Config {
            model,
            hotkey,
            overlay_position: self.overlay_position,
            appearance: self.appearance,
            live_transcription: self.live_transcription,
            sound_effects: self.sound_effects,
            ambient_microphone: self.ambient_microphone,
            ambient_system_audio: self.ambient_system_audio,
            ambient_final_backend: self.ambient_final_backend,
            summary_backend: self.summary_backend,
            summary_ollama_model,
            show_accessibility_helper_on_launch: self.show_accessibility_helper_on_launch,
            accessibility_helper_dismissed: self.accessibility_helper_dismissed,
            vision_hotkey,
            vision_provider: self.vision_provider,
            vision_openai_model,
            vision_gemini_model,
            vision_fast_screen_help: self.vision_fast_screen_help,
        }
    }

    /// The entry of the dictation key in the hotkey table: the configured key where the table
    /// has it, else the first entry (left control).
    pub fn hotkey_info(&self) -> (r: &'static HotkeyInfo)
        ensures
            hotkey_entry(hotkey_index(self.hotkey@), *r),
            r.id@ == keep_or(hotkey_ids().contains(self.hotkey@), self.hotkey@, "left_control"@),
    {
        let i = hotkey_index_for_id(self.hotkey.as_str());
        proof {
            lemma_index_of(hotkey_ids(), self.hotkey@);
        }
        let table = hotkeys();
        &table[i]
    }

    pub fn hotkey_label(&self) -> (r: &'static str)
        ensures
            r@ == hotkey_label_of(hotkey_index(self.hotkey@)),
    {
        let i = hotkey_index_for_id(self.hotkey.as_str());
        let table = hotkeys();
        table[i].label
    }

    /// The entry of the vision key in the hotkey table: the configured key where the table
    /// has it, else the third entry (left option).
    pub fn vision_hotkey_info(&self) -> (r: &'static HotkeyInfo)
        ensures
            hotkey_entry(
                if hotkey_ids().contains(self.vision_hotkey@) {
                    hotkey_index(self.vision_hotkey@)
                } else {
                    2
                },
                *r,
            ),
            r.id@ == keep_or(
                hotkey_ids().contains(self.vision_hotkey@),
                self.vision_hotkey@,
                "left_option"@,
            ),
    {
        let table = hotkeys();
        proof {
            lemma_index_of(hotkey_ids(), self.vision_hotkey@);
        }
        if known_hotkey(&self.vision_hotkey) {
            let j = hotkey_index_for_id(self.vision_hotkey.as_str());
            return &table[j];
        }
        &table[2]
    }

    pub fn vision_hotkey_label(&self) -> (r: &'static str)
        ensures
            r@ == if hotkey_ids().contains(self.vision_hotkey@) {
                hotkey_label_of(hotkey_index(self.vision_hotkey@))
            } else {
                hotkey_label_of(2)
            },
    {
        let table = hotkeys();
        proof {
            lemma_index_of(hotkey_ids(), self.vision_hotkey@);
        }
        if known_hotkey(&self.vision_hotkey) {
            let j = hotkey_index_for_id(self.vision_hotkey.as_str());
            return table[j].label;
        }
        table[2].label
    }

    pub fn position_label(&self) -> (r: &'static str)
        ensures
            r@ == match self.overlay_position {
                OverlayPosition::Center => "Center"@,
                OverlayPosition::Top => "Top"@,
                OverlayPosition::Bottom => "Bottom"@,
            },
    {
        let table = positions();
        let mut i: usize = 0;
        while i < table.len()
            invariant
                table@.len() == 3,
                table@[0].id == OverlayPosition::Center && table@[0].label@ == "Center"@,
                table@[1].id == OverlayPosition::Top && table@[1].label@ == "Top"@,
                table@[2].id == OverlayPosition::Bottom && table@[2].label@ == "Bottom"@,
                i <= 3,
                forall|k: int| 0 <= k < i ==> table@[k].id != self.overlay_position,
            decreases 3 - i,
        {
            if table[i].id == self.overlay_position {
                return table[i].label;
            }
            i = i + 1;
        }
        "Center"
    }

    pub fn appearance_label(&self) -> (r: &'static str)
        ensures
            r@ == match self.appearance {
                AppAppearance::Dark => "Dark"@,
                AppAppearance::Light => "Light"@,
            },
    {
        let table = appearances();
        let mut i: usize = 0;
        while i < table.len()
            invariant
                table@.len() == 2,
                table@[0].id == AppAppearance::Dark && table@[0].label@ == "Dark"@,
                table@[1].id == AppAppearance::Light && table@[1].label@ == "Light"@,
                i <= 2,
                forall|k: int| 0 <= k < i ==> table@[k].id != self.appearance,
            decreases 2 - i,
        {
            if table[i].id == self.appearance {
                return table[i].label;
            }
            i = i + 1;
        }
        "Dark"
    }

    pub fn summary_backend_label(&self) -> (r: &'static str)
        ensures
            r@ == match self.summary_backend {
                SummaryBackendPreference::Bundled => "Bundled Gemma 3 1B"@,
                SummaryBackendPreference::Ollama => "Local Ollama"@,
            },
    {
        match self.summary_backend {
            SummaryBackendPreference::Bundled => "Bundled Gemma 3 1B",
            SummaryBackendPreference::Ollama => "Local Ollama",
        }
    }

    pub fn ambient_final_backend_label(&self) -> (r: &'static str)
        ensures
            r@ == match self.ambient_final_backend {
                AmbientFinalBackendPreference::Native => "Native"@,
                AmbientFinalBackendPreference::NativeDiarization => "Native Diarization"@,
            },
    {
        let table = ambient_final_backends();
        let mut i: usize = 0;
        while i < table.len()
            invariant
                table@.len() == 2,
                table@[0].id == AmbientFinalBackendPreference::Native && table@[0].label@
                    == "Native"@,
                table@[1].id == AmbientFinalBackendPreference::NativeDiarization
                    && table@[1].label@ == "Native Diarization"@,
                i <= 2,
                forall|k: int| 0 <= k < i ==> table@[k].id != self.ambient_final_backend,
            decreases 2 - i,
        {
            if table[i].id == self.ambient_final_backend {
                return table[i].label;
            }
            i = i + 1;
        }
        "Native"
    }
}

/// `h` is the entry at `i` of the hotkey table: its id, label and flags.
pub open spec fn hotkey_entry(i: int, h: HotkeyInfo) -> bool {
    &&& h.id@ == hotkey_ids()[i]
    &&& h.label@ == hotkey_label_of(i)
    &&& h.modifier_flag == crate::hotkey::modifier_flag_at(i)
    &&& h.device_flag == crate::hotkey::device_flag_at(i)
}

pub open spec fn hotkey_label_of(k: int) -> Seq<char> {
    if k == 0 {
        "Left Control ⌃"@
    } else if k == 1 {
        "Right Control ⌃"@
    } else if k == 2 {
        "Left Option ⌥"@
    } else if k == 3 {
        "Right Option ⌥"@
    } else if k == 4 {
        "Left Command ⌘"@
    } else if k == 5 {
        "Right Command ⌘"@
    } else {
        "Fn (Globe) 🌐"@
    }
}

/// Normalizing gives valid settings and changes nothing more when repeated.
pub proof fn lemma_normalized_is_normal(before: &Config, after: &Config, again: &Config)
    requires
        after.model@ == keep_or(model_ids().contains(before.model@), before.model@, "base"@),
        after.hotkey@ == keep_or(hotkey_ids().contains(before.hotkey@), before.hotkey@, "left_control"@),
        after.summary_ollama_model@ == keep_or(
            trim(before.summary_ollama_model@).len() > 0,
            before.summary_ollama_model@,
            "gemma4:latest"@,
        ),
        after.vision_hotkey@ == keep_or(
            hotkey_ids().contains(before.vision_hotkey@),
            before.vision_hotkey@,
            "left_option"@,
        ),
        after.vision_openai_model@ == keep_or(
            trim(before.vision_openai_model@).len() > 0,
            before.vision_openai_model@,
            "gpt-4o-mini"@,
        ),
        after.vision_gemini_model@ == keep_or(
            trim(before.vision_gemini_model@).len() > 0,
            before.vision_gemini_model@,
            "gemini-3.1-pro-preview"@,
        ),
        again.model@ == keep_or(model_ids().contains(after.model@), after.model@, "base"@),
        again.hotkey@ == keep_or(hotkey_ids().contains(after.hotkey@), after.hotkey@, "left_control"@),
        again.summary_ollama_model@ == keep_or(
            trim(after.summary_ollama_model@).len() > 0,
            after.summary_ollama_model@,
            "gemma4:latest"@,
        ),
        again.vision_hotkey@ == keep_or(
            hotkey_ids().contains(after.vision_hotkey@),
            after.vision_hotkey@,
            "left_option"@,
        ),
        again.vision_openai_model@ == keep_or(
            trim(after.vision_openai_model@).len() > 0,
            after.vision_openai_model@,
            "gpt-4o-mini"@,
        ),
        again.vision_gemini_model@ == keep_or(
            trim(after.vision_gemini_model@).len() > 0,
            after.vision_gemini_model@,
            "gemini-3.1-pro-preview"@,
        ),
    ensures
        config_is_normal(after),
        again.model@ == after.model@,
        again.hotkey@ == after.hotkey@,
        again.summary_ollama_model@ == after.summary_ollama_model@,
        again.vision_hotkey@ == after.vision_hotkey@,
        again.vision_openai_model@ == after.vision_openai_model@,
        again.vision_gemini_model@ == after.vision_gemini_model@,
{
    reveal_strlit("base");
    reveal_strlit("left_control");
    reveal_strlit("left_option");
    reveal_strlit("gemma4:latest");
    reveal_strlit("gpt-4o-mini");
    reveal_strlit("gemini-3.1-pro-preview");
    assert(model_ids()[1] == "base"@);
    assert(hotkey_ids()[0] == "left_control"@);
    assert(hotkey_ids()[2] == "left_option"@);
    assert(trim(before.summary_ollama_model@).len() == 0 ==> trim("gemma4:latest"@).len() > 0) by {
        lemma_trim_keeps_first("gemma4:latest"@);
    }
    assert(trim("gpt-4o-mini"@).len() > 0) by {
        lemma_trim_keeps_first("gpt-4o-mini"@);
    }
    assert(trim("gemini-3.1-pro-preview"@).len() > 0) by {
        lemma_trim_keeps_first("gemini-3.1-pro-preview"@);
    }
}

/// A text that starts with a non-whitespace character keeps it when trimmed.
pub proof fn lemma_trim_keeps_first(s: Seq<char>)
    requires
        s.len() > 0,
        !crate::text::is_ws(s[0]),
    ensures
        trim(s).len() > 0,
{
    assert(crate::text::trim_start_cls(s, CharClass::Whitespace) == s);
    lemma_trim_end_keeps_first(s);
}

pub proof fn lemma_trim_end_keeps_first(s: Seq<char>)
    requires
        s.len() > 0,
        !crate::text::is_ws(s[0]),
    ensures
        crate::text::trim_end_cls(s, CharClass::Whitespace).len() > 0,
    decreases s.len(),
{
    if s.len() > 1 && crate::text::is_ws(s.last()) {
        lemma_trim_end_keeps_first(s.drop_last());
    }
}

pub const OPENAI_KEY_MISSING: &'static str = "OpenAI API key not configured. Either set the OPENAI_API_KEY environment variable, or put your secret key on a single line in:\n~/Library/Application Support/Screamer/openai_api_key\n\nWhen Screen help uses OpenAI, screenshots and prompts are sent to OpenAI. Rotate any key that was exposed elsewhere.";

pub const GEMINI_KEY_MISSING: &'static str = "Gemini API key not configured. Either set the GEMINI_API_KEY environment variable, or put your API key on a single line in:\n~/Library/Application Support/Screamer/gemini_api_key\n\nWhen Screen help uses Gemini, screenshots and prompts are sent to Google. See https://ai.google.dev/gemini-api/docs — rotate any key that was exposed elsewhere.";

/// The first line of a key file, trimmed (empty for an empty file).
pub open spec fn key_file_line(contents: Seq<char>) -> Seq<char> {
    let ls = crate::markdown::lines(contents);
    if ls.len() > 0 {
        trim(ls[0])
    } else {
        Seq::empty()
    }
}

/// Where an API key comes from: the environment variable when it is set and not blank
/// (trimmed); else the first line of the key file when there is one and it is not blank; a
/// failure to read the file is passed on; otherwise the key is missing.
pub open spec fn api_key_of(
    env_value: Option<Seq<char>>,
    file: Option<Result<Seq<char>, Seq<char>>>,
    missing: Seq<char>,
) -> Result<Seq<char>, Seq<char>> {
    match env_value {
        Some(v) if trim(v).len() > 0 => Ok(trim(v)),
        _ => match file {
            Some(Err(e)) => Err(e),
            Some(Ok(c)) if key_file_line(c).len() > 0 => Ok(key_file_line(c)),
            _ => Err(missing),
        },
    }
}

pub open spec fn file_view(file: Option<Result<String, String>>) -> Option<Result<Seq<char>, Seq<char>>> {
    match file {
        Some(Ok(c)) => Some(Ok(c@)),
        Some(Err(e)) => Some(Err(e@)),
        None => None,
    }
}

pub open spec fn result_view(r: Result<String, String>) -> Result<Seq<char>, Seq<char>> {
    match r {
        Ok(v) => Ok(v@),
        Err(e) => Err(e@),
    }
}

fn api_key_from(env_value: Option<&str>, file: Option<Result<String, String>>, missing: &str) -> (r:
    Result<String, String>)
    ensures
        result_view(r) == api_key_of(crate::models::opt_str_view(env_value), file_view(file), missing@),
{
    if let Some(v) = env_value {
        let c = to_chars(v);
        let t = crate::text::trimmed(&c, CharClass::Whitespace);
        if t.len() > 0 {
            return Ok(crate::text::from_chars(&t));
        }
    }
    match file {
        Some(Err(e)) => Err(e),
        Some(Ok(contents)) => {
            let c = to_chars(contents.as_str());
            let ls = crate::markdown::split_lines(&c);
            if ls.len() > 0 {
                let t = crate::text::trimmed(&ls[0], CharClass::Whitespace);
                if t.len() > 0 {
                    return Ok(crate::text::from_chars(&t));
                }
            }
            Err(missing.to_string())
        },
        None => Err(missing.to_string()),
    }
}

impl Config {
    /// The OpenAI key, from `OPENAI_API_KEY` or the key file (none when there is no such file).
    pub fn resolve_openai_api_key(env_value: Option<&str>, file: Option<Result<String, String>>) -> (r:
        Result<String, String>)
        ensures
            result_view(r) == api_key_of(crate::models::opt_str_view(env_value), file_view(file), OPENAI_KEY_MISSING@),
    {
        api_key_from(env_value, file, OPENAI_KEY_MISSING)
    }

    /// The Gemini key, from `GEMINI_API_KEY` or the key file (none when there is no such file).
    pub fn resolve_gemini_api_key(env_value: Option<&str>, file: Option<Result<String, String>>) -> (r:
        Result<String, String>)
        ensures
            result_view(r) == api_key_of(crate::models::opt_str_view(env_value), file_view(file), GEMINI_KEY_MISSING@),
    {
        api_key_from(env_value, file, GEMINI_KEY_MISSING)
    }
}

} // verus!
