use screamer::config::Config;
use screamer::hotkey::{Hotkey, HotkeyEvents, KeyEdge};

const LEFT_CONTROL: u64 = 0x0004_0000 | 0x0000_0001;
const RIGHT_CONTROL: u64 = 0x0004_0000 | 0x0000_2000;
const LEFT_OPTION: u64 = 0x0008_0000 | 0x0000_0020;
const FN_KEY: u64 = 0x0080_0000;

fn events(dictation: Option<KeyEdge>, vision: Option<KeyEdge>) -> HotkeyEvents {
    HotkeyEvents { dictation, vision }
}

#[test]
fn dictation_key_presses_and_releases() {
    let mut hotkey = Hotkey::new(&Config::default());
    assert_eq!(hotkey.handle_flags(LEFT_CONTROL), events(Some(KeyEdge::Pressed), None));
    assert_eq!(hotkey.handle_flags(LEFT_CONTROL), events(None, None));
    assert_eq!(hotkey.handle_flags(0), events(Some(KeyEdge::Released), None));
    assert_eq!(hotkey.handle_flags(0), events(None, None));
}

#[test]
fn the_other_side_of_the_modifier_is_not_the_dictation_key() {
    let mut hotkey = Hotkey::new(&Config::default());
    assert_eq!(hotkey.handle_flags(RIGHT_CONTROL), events(None, None));
}

#[test]
fn vision_key_presses_and_releases() {
    let mut hotkey = Hotkey::new(&Config::default());
    assert_eq!(hotkey.handle_flags(LEFT_OPTION), events(None, Some(KeyEdge::Pressed)));
    assert_eq!(hotkey.handle_flags(0), events(None, Some(KeyEdge::Released)));
}

#[test]
fn vision_does_not_start_while_dictating() {
    let mut hotkey = Hotkey::new(&Config::default());
    assert_eq!(hotkey.handle_flags(LEFT_CONTROL), events(Some(KeyEdge::Pressed), None));
    assert_eq!(hotkey.handle_flags(LEFT_CONTROL | LEFT_OPTION), events(None, None));
    assert_eq!(hotkey.handle_flags(LEFT_OPTION), events(Some(KeyEdge::Released), Some(KeyEdge::Pressed)));
}

#[test]
fn both_keys_down_at_once_start_only_dictation() {
    let mut hotkey = Hotkey::new(&Config::default());
    assert_eq!(hotkey.handle_flags(LEFT_CONTROL | LEFT_OPTION), events(Some(KeyEdge::Pressed), None));
}

#[test]
fn changing_the_dictation_key() {
    let mut hotkey = Hotkey::new(&Config::default());
    let info = hotkey.set_hotkey("fn");
    assert_eq!(info.id, "fn");
    assert_eq!(hotkey.dictation_hotkey().id, "fn");
    assert_eq!(hotkey.handle_flags(LEFT_CONTROL), events(None, None));
    assert_eq!(hotkey.handle_flags(FN_KEY), events(Some(KeyEdge::Pressed), None));
}

#[test]
fn an_unknown_key_falls_back_to_the_first_table_entry() {
    let mut hotkey = Hotkey::new(&Config::default());
    let info = hotkey.set_vision_hotkey("nonsense");
    assert_eq!(info.id, "left_control");
    assert_eq!(hotkey.vision_hotkey().id, "left_control");
}
