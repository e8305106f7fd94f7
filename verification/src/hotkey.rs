//! The two push-to-talk keys: which of them is held, from the modifier flags of each
//! keyboard event, and when to start or stop dictation and vision.
use vstd::prelude::*;
use crate::permissions::MicrophonePermissionOutcome;
use crate::config::{hotkey_ids, hotkey_index, hotkey_index_for_id, hotkeys, Config, HotkeyInfo};

verus! {

/// The modifier flag of the hotkey at `i` in the hotkey table.
pub open spec fn modifier_flag_at(i: int) -> u64 {
    if i == 0 || i == 1 {
        0x00040000
    } else if i == 2 || i == 3 {
        0x00080000
    } else if i == 4 || i == 5 {
        0x00100000
    } else {
        0x00800000
    }
}

/// The device flag of the hotkey at `i` in the hotkey table (none for Fn).
pub open spec fn device_flag_at(i: int) -> u64 {
    if i == 0 {
        0x00000001
    } else if i == 1 {
        0x00002000
    } else if i == 2 {
        0x00000020
    } else if i == 3 {
        0x00000040
    } else if i == 4 {
        0x00000008
    } else if i == 5 {
        0x00000010
    } else {
        0
    }
}

/// A key is held when its modifier flag is set and, for a key with a device flag, that
/// flag is set too (which tells left from right).
pub open spec fn key_held(i: int, flags: u64) -> bool {
    &&& flags & modifier_flag_at(i) != 0
    &&& device_flag_at(i) != 0 ==> flags & device_flag_at(i) != 0
}

/// A key going down or coming up.
#[derive(Clone, Copy, Debug, PartialEq, Eq, Structural)]
pub enum KeyEdge {
    Pressed,
    Released,
}

/// What one keyboard event asks of the app: first for dictation, then for vision.
#[derive(Clone, Copy, Debug, PartialEq, Eq, Structural)]
pub struct HotkeyEvents {
    pub dictation: Option<KeyEdge>,
    pub vision: Option<KeyEdge>,
}

pub struct Hotkey {
    dictation_pressed: bool,
    vision_pressed: bool,
    dictation_index: usize,
    vision_index: usize,
}

pub ghost struct HotkeyView {
    pub dictation_pressed: bool,
    pub vision_pressed: bool,
    pub dictation_index: int,
    pub vision_index: int,
}

impl View for Hotkey {
    type V = HotkeyView;

    closed spec fn view(&self) -> HotkeyView {
        HotkeyView {
            dictation_pressed: self.dictation_pressed,
            vision_pressed: self.vision_pressed,
            dictation_index: self.dictation_index as int,
            vision_index: self.vision_index as int,
        }
    }
}

/// The edge of a key that was `was` held and now is `now` held.
pub open spec fn edge(was: bool, now: bool) -> Option<KeyEdge> {
    if now && !was {
        Some(KeyEdge::Pressed)
    } else if !now && was {
        Some(KeyEdge::Released)
    } else {
        None
    }
}

/// One keyboard event with modifier flags `flags`. Dictation follows its key. Vision
/// follows its key too, except that it does not start while dictation is held.
pub open spec fn hotkey_step(s: HotkeyView, flags: u64) -> (HotkeyView, HotkeyEvents) {
    let dict_down = key_held(s.dictation_index, flags);
    let dictation_pressed = dict_down;
    let vis_down = key_held(s.vision_index, flags);
    let vision_blocked = vis_down && !s.vision_pressed && dictation_pressed;
    let vision_pressed = if vision_blocked {
        s.vision_pressed
    } else {
        vis_down
    };
    (
        HotkeyView { dictation_pressed, vision_pressed, ..s },
        HotkeyEvents {
            dictation: edge(s.dictation_pressed, dictation_pressed),
            vision: edge(s.vision_pressed, vision_pressed),
        },
    )
}

pub open spec fn hotkey_valid(s: HotkeyView) -> bool {
    0 <= s.dictation_index < 7 && 0 <= s.vision_index < 7
}

fn info_at(i: usize) -> (r: &'static HotkeyInfo)
    requires
        i < 7,
    ensures
        r.modifier_flag == modifier_flag_at(i as int),
        r.device_flag == device_flag_at(i as int),
        r.id@ == hotkey_ids()[i as int],
{
    let table = hotkeys();
    &table[i]
}

fn held(info: &HotkeyInfo, flags: u64) -> (r: bool)
    ensures
        r == (flags & info.modifier_flag != 0 && (info.device_flag != 0 ==> flags
            & info.device_flag != 0)),
{
    let modifier_down = (flags & info.modifier_flag) != 0;
    if info.device_flag != 0 {
        modifier_down && (flags & info.device_flag) != 0
    } else {
        modifier_down
    }
}

impl Hotkey {
    pub closed spec fn valid(&self) -> bool {
        hotkey_valid(self@)
    }

    /// Neither key held; the keys are those of the settings (the first key of the table for
    /// an unknown id, for both).
    pub fn new(config: &Config) -> (r: Self)
        ensures
            r.valid(),
            r@ == (HotkeyView {
                dictation_pressed: false,
                vision_pressed: false,
                dictation_index: hotkey_index(config.hotkey@),
                vision_index: hotkey_index(config.vision_hotkey@),
            }),
    {
        Hotkey {
            dictation_pressed: false,
            vision_pressed: false,
            dictation_index: hotkey_index_for_id(config.hotkey.as_str()),
            vision_index: hotkey_index_for_id(config.vision_hotkey.as_str()),
        }
    }

    /// Changes the dictation key and returns its table entry.
    pub fn set_hotkey(&mut self, hotkey_id: &str) -> (r: &'static HotkeyInfo)
        requires
            old(self).valid(),
        ensures
            final(self).valid(),
            final(self)@ == (HotkeyView { dictation_index: hotkey_index(hotkey_id@), ..old(self)@ }),
            r.id@ == hotkey_ids()[hotkey_index(hotkey_id@)],
    {
        let index = hotkey_index_for_id(hotkey_id);
        self.dictation_index = index;
        info_at(index)
    }

    /// Changes the vision key and returns its table entry.
    pub fn set_vision_hotkey(&mut self, hotkey_id: &str) -> (r: &'static HotkeyInfo)
        requires
            old(self).valid(),
        ensures
            final(self).valid(),
            final(self)@ == (HotkeyView { vision_index: hotkey_index(hotkey_id@), ..old(self)@ }),
            r.id@ == hotkey_ids()[hotkey_index(hotkey_id@)],
    {
        let index = hotkey_index_for_id(hotkey_id);
        self.vision_index = index;
        info_at(index)
    }

    /// The table entry of the dictation key.
    pub fn dictation_hotkey(&self) -> (r: &'static HotkeyInfo)
        requires
            self.valid(),
        ensures
            r.id@ == hotkey_ids()[self@.dictation_index],
    {
        info_at(self.dictation_index)
    }

    /// The table entry of the vision key.
    pub fn vision_hotkey(&self) -> (r: &'static HotkeyInfo)
        requires
            self.valid(),
        ensures
            r.id@ == hotkey_ids()[self@.vision_index],
    {
        info_at(self.vision_index)
    }

    /// Takes the modifier flags of a keyboard event and says which keys went down or up.
    pub fn handle_flags(&mut self, flags: u64) -> (r: HotkeyEvents)
        requires
            old(self).valid(),
        ensures
            final(self).valid(),
            (final(self)@, r) == hotkey_step(old(self)@, flags),
    {
        let dict_info = info_at(self.dictation_index);
        let dict_down = held(dict_info, flags);
        let dict_was = self.dictation_pressed;
        let mut dictation: Option<KeyEdge> = None;
        if dict_down && !dict_was {
            self.dictation_pressed = true;
            dictation = Some(KeyEdge::Pressed);
        } else if !dict_down && dict_was {
            self.dictation_pressed = false;
            dictation = Some(KeyEdge::Released);
        }
        let vis_info = info_at(self.vision_index);
        let vis_down = held(vis_info, flags);
        let vis_was = self.vision_pressed;
        let mut vision: Option<KeyEdge> = None;
        if vis_down && !vis_was {
            if !self.dictation_pressed {
                self.vision_pressed = true;
                vision = Some(KeyEdge::Pressed);
            }
        } else if !vis_down && vis_was {
            self.vision_pressed = false;
            vision = Some(KeyEdge::Released);
        }
        HotkeyEvents { dictation, vision }
    }
}

/// Presses and releases alternate: a key reported pressed was up and is now down, one
/// reported released was down and is now up, and a key with nothing reported kept its
/// state. Vision never starts while dictation is held, and dictation is held exactly when
/// its key is.
pub proof fn lemma_hotkey_edges(s: HotkeyView, flags: u64)
    ensures
        ({
            let (t, ev) = hotkey_step(s, flags);
            &&& ev.dictation == Some(KeyEdge::Pressed) <==> (!s.dictation_pressed
                && t.dictation_pressed)
            &&& ev.dictation == Some(KeyEdge::Released) <==> (s.dictation_pressed
                && !t.dictation_pressed)
            &&& ev.dictation is None <==> s.dictation_pressed == t.dictation_pressed
            &&& ev.vision == Some(KeyEdge::Pressed) <==> (!s.vision_pressed && t.vision_pressed)
            &&& ev.vision == Some(KeyEdge::Released) <==> (s.vision_pressed && !t.vision_pressed)
            &&& ev.vision is None <==> s.vision_pressed == t.vision_pressed
            &&& ev.vision == Some(KeyEdge::Pressed) ==> !t.dictation_pressed
            &&& t.dictation_pressed == key_held(s.dictation_index, flags)
            &&& t.dictation_index == s.dictation_index && t.vision_index == s.vision_index
        }),
{
}


/// What a press of the dictation key leads to, before the microphone is asked.
#[derive(Clone, Copy, Debug, PartialEq, Eq, Structural)]
pub enum DictationGate {
    /// An ambient session is running: dictation is ignored.
    IgnoreWhileAmbient,
    /// A dictation is already being recorded.
    AlreadyRecording,
    /// Accessibility permission is missing: ask for it and show its window.
    AskAccessibility,
    /// Go on to the microphone permission.
    CheckMicrophone,
}

/// The checks of a dictation key press, in order: no ambient session running, no dictation
/// already recording, accessibility permission granted.
pub fn dictation_gate(ambient_active: bool, recording: bool, accessibility_granted: bool) -> (r:
    DictationGate)
    ensures
        r == (if ambient_active {
            DictationGate::IgnoreWhileAmbient
        } else if recording {
            DictationGate::AlreadyRecording
        } else if !accessibility_granted {
            DictationGate::AskAccessibility
        } else {
            DictationGate::CheckMicrophone
        }),
{
    if ambient_active {
        DictationGate::IgnoreWhileAmbient
    } else if recording {
        DictationGate::AlreadyRecording
    } else if !accessibility_granted {
        DictationGate::AskAccessibility
    } else {
        DictationGate::CheckMicrophone
    }
}

/// What a dictation key press does once the microphone permission is known.
#[derive(Clone, Copy, Debug, PartialEq, Eq, Structural)]
pub enum DictationStart {
    /// The user was just asked for the microphone: nothing is recorded this time.
    WaitForMicrophone,
    /// The microphone is denied: show how to allow it.
    ShowMicrophoneGuidance,
    /// Start recording, with the start cue where sound effects are on.
    Record { play_start_sound: bool },
}

pub fn dictation_start(microphone: MicrophonePermissionOutcome, sound_effects: bool) -> (r:
    DictationStart)
    ensures
        r == match microphone {
            MicrophonePermissionOutcome::Granted => DictationStart::Record {
                play_start_sound: sound_effects,
            },
            MicrophonePermissionOutcome::Prompted => DictationStart::WaitForMicrophone,
            MicrophonePermissionOutcome::Denied => DictationStart::ShowMicrophoneGuidance,
        },
{
    match microphone {
        MicrophonePermissionOutcome::Granted => DictationStart::Record {
            play_start_sound: sound_effects,
        },
        MicrophonePermissionOutcome::Prompted => DictationStart::WaitForMicrophone,
        MicrophonePermissionOutcome::Denied => DictationStart::ShowMicrophoneGuidance,
    }
}

} // verus!
