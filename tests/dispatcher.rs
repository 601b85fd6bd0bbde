use winittray::{
    JApp, JAppAction, JAppEvent, JAppUI, JGlobalHotKeyEvent, JGlobalHotkey, JMouseButton, JMouseInput,
    SoundDataIter, SoundId,
};
use windows_sys::Win32::UI::Input::KeyboardAndMouse::{
    MOUSEEVENTF_LEFTDOWN, MOUSEEVENTF_LEFTUP, MOUSEEVENTF_MIDDLEDOWN, MOUSEEVENTF_MIDDLEUP,
    MOUSEEVENTF_RIGHTDOWN, MOUSEEVENTF_RIGHTUP, MOUSEEVENTF_XDOWN, MOUSEEVENTF_XUP,
};

fn us_key_scan(c: char) -> i16 {
    match c {
        'a'..='z' => (c as u8 - b'a' + 0x41) as i16,
        _ => -1,
    }
}

fn accept(_: usize, _: u32, _: u32) -> i32 {
    1
}

fn bits(v: &[f32]) -> Vec<u32> {
    v.iter().map(|x| x.to_bits()).collect()
}

fn hotkey(s: &str) -> JGlobalHotkey {
    JGlobalHotkey::from_str(s, us_key_scan).unwrap()
}

fn press(s: &str) -> JGlobalHotKeyEvent {
    JGlobalHotKeyEvent::HotkeyPressed(hotkey(s))
}

fn started(a: JAppAction) -> SoundDataIter {
    match a {
        JAppAction::StartStream(c) => c,
        _ => panic!("expected a stream start"),
    }
}

#[test]
fn mouse_constants_match_win32() {
    assert_eq!(winittray::app::MOUSEEVENTF_LEFTDOWN, MOUSEEVENTF_LEFTDOWN);
    assert_eq!(winittray::app::MOUSEEVENTF_LEFTUP, MOUSEEVENTF_LEFTUP);
    assert_eq!(winittray::app::MOUSEEVENTF_RIGHTDOWN, MOUSEEVENTF_RIGHTDOWN);
    assert_eq!(winittray::app::MOUSEEVENTF_RIGHTUP, MOUSEEVENTF_RIGHTUP);
    assert_eq!(winittray::app::MOUSEEVENTF_MIDDLEDOWN, MOUSEEVENTF_MIDDLEDOWN);
    assert_eq!(winittray::app::MOUSEEVENTF_MIDDLEUP, MOUSEEVENTF_MIDDLEUP);
    assert_eq!(winittray::app::MOUSEEVENTF_XDOWN, MOUSEEVENTF_XDOWN);
    assert_eq!(winittray::app::MOUSEEVENTF_XUP, MOUSEEVENTF_XUP);
}

#[test]
fn mouse_button_payloads() {
    assert_eq!(JMouseButton::MouseButton1.get_press_input(), JMouseInput { flags: MOUSEEVENTF_LEFTDOWN, data: 0 });
    assert_eq!(JMouseButton::MouseButton2.get_release_input(), JMouseInput { flags: MOUSEEVENTF_RIGHTUP, data: 0 });
    assert_eq!(JMouseButton::MouseButton3.get_press_input(), JMouseInput { flags: MOUSEEVENTF_MIDDLEDOWN, data: 0 });
    assert_eq!(JMouseButton::MouseButton4.get_press_input(), JMouseInput { flags: MOUSEEVENTF_XDOWN, data: 1 });
    assert_eq!(JMouseButton::MouseButton5.get_release_input(), JMouseInput { flags: MOUSEEVENTF_XUP, data: 2 });
}

#[test]
fn sound_ids_increase() {
    let mut app = JApp::new();
    assert_eq!(app.load_sound("a.wav", bits(&[0.1])), Some(SoundId(0)));
    assert_eq!(app.load_sound("b.wav", bits(&[0.2])), Some(SoundId(1)));
    assert_eq!(app.get_sound(SoundId(1)).unwrap().path, "b.wav");
    assert!(app.get_sound(SoundId(2)).is_none());
    assert!(app.get_sound_player(SoundId(2)).is_none());
}

#[test]
fn end_to_end_two_sounds() {
    let mut app = JApp::new();
    let s1 = app.load_sound("s1.wav", bits(&[0.1, 0.2, 0.3])).unwrap();
    let s2 = app.load_sound("s2.wav", bits(&[-0.5, 0.5])).unwrap();
    app.register_hoktey_for_sound("ALT+P", s1, us_key_scan, accept).unwrap();
    app.register_hoktey_for_sound("ALT+O", s2, us_key_scan, accept).unwrap();

    let mut actions = Vec::new();
    assert!(app.process_events(press("Alt+P"), None, &mut actions));
    assert_eq!(actions.len(), 1);
    let mut c = started(actions.remove(0));
    let mut out = Vec::new();
    while !c.is_done() {
        out.push(f32::from_bits(c.next_value()));
    }
    assert_eq!(out, vec![0.1, 0.2, 0.3]);
    assert!(app.is_playing());

    assert!(app.process_events(JGlobalHotKeyEvent::NoEvent, Some(JAppEvent::StopAudio), &mut actions));
    assert_eq!(actions.len(), 1);
    assert!(matches!(actions.remove(0), JAppAction::StopStream));
    assert!(!app.is_playing());

    assert!(app.process_events(press("Alt+P"), None, &mut actions));
    let mut c1 = started(actions.remove(0));
    assert_eq!(f32::from_bits(c1.next_value()), 0.1);
    assert!(app.process_events(press("Alt+O"), None, &mut actions));
    assert_eq!(actions.len(), 2);
    assert!(matches!(actions[0], JAppAction::StopStream));
    let mut c2 = started(actions.remove(1));
    assert_eq!(f32::from_bits(c2.next_value()), -0.5);
    assert_eq!(f32::from_bits(c2.next_value()), 0.5);
    assert!(c2.is_done());
    assert!(app.is_playing());
}

#[test]
fn switching_sounds_stops_before_starting() {
    let mut app = JApp::new();
    app.with_mouse_input_on_play(JMouseButton::MouseButton5);
    let a = app.load_sound("a.wav", bits(&[0.25])).unwrap();
    let b = app.load_sound("b.wav", bits(&[0.75])).unwrap();
    app.bind_hotkey(hotkey("ctrl+a"), a);
    app.bind_hotkey(hotkey("ctrl+b"), b);

    let mut actions = Vec::new();
    app.process_events(press("ctrl+b"), None, &mut actions);
    assert_eq!(actions.len(), 2);
    match &actions[0] {
        JAppAction::SendInputs(v) => assert_eq!(v, &vec![JMouseInput { flags: MOUSEEVENTF_XDOWN, data: 2 }]),
        _ => panic!("expected the synthetic press"),
    }
    assert!(matches!(actions[1], JAppAction::StartStream(_)));

    actions.clear();
    app.process_events(press("ctrl+a"), None, &mut actions);
    assert_eq!(actions.len(), 4);
    assert!(matches!(actions[0], JAppAction::StopStream));
    match &actions[1] {
        JAppAction::SendInputs(v) => assert_eq!(v, &vec![JMouseInput { flags: MOUSEEVENTF_XUP, data: 2 }]),
        _ => panic!("expected the synthetic release"),
    }
    match &actions[2] {
        JAppAction::SendInputs(v) => assert_eq!(v, &vec![JMouseInput { flags: MOUSEEVENTF_XDOWN, data: 2 }]),
        _ => panic!("expected the synthetic press"),
    }
    let mut c = started(actions.remove(3));
    assert_eq!(f32::from_bits(c.next_value()), 0.25);
}

#[test]
fn first_mapping_wins() {
    let mut app = JApp::new();
    let a = app.load_sound("a.wav", bits(&[0.1])).unwrap();
    let b = app.load_sound("b.wav", bits(&[0.9])).unwrap();
    app.bind_hotkey(hotkey("alt+x"), a);
    app.bind_hotkey(hotkey("alt+x"), b);
    let mut actions = Vec::new();
    app.process_events(press("alt+x"), None, &mut actions);
    let mut c = started(actions.remove(0));
    assert_eq!(f32::from_bits(c.next_value()), 0.1);
}

#[test]
fn release_stops_only_when_asked() {
    let mut app = JApp::new();
    let a = app.load_sound("a.wav", bits(&[0.1, 0.2])).unwrap();
    app.bind_hotkey(hotkey("alt+r"), a);
    let mut actions = Vec::new();
    app.process_events(press("alt+r"), None, &mut actions);
    actions.clear();
    let release = JGlobalHotKeyEvent::HotkeyReleased(hotkey("alt+r"));
    assert!(!app.process_events(release, None, &mut actions));
    assert!(actions.is_empty());
    assert!(app.is_playing());
    app.state.stop_audio_on_release = true;
    assert!(app.process_events(release, None, &mut actions));
    assert!(matches!(actions[0], JAppAction::StopStream));
    assert!(!app.is_playing());
}

#[test]
fn unmapped_press_does_nothing() {
    let mut app = JApp::new();
    let mut actions = Vec::new();
    assert!(!app.process_events(press("alt+z"), None, &mut actions));
    assert!(actions.is_empty());
    assert!(!app.process_events(JGlobalHotKeyEvent::NoEvent, None, &mut actions));
    app.stop(&mut actions);
    assert!(actions.is_empty());
}

#[test]
fn playing_a_missing_sound_only_stops() {
    let mut app = JApp::new();
    let a = app.load_sound("a.wav", bits(&[0.1])).unwrap();
    let mut actions = Vec::new();
    app.play(a, &mut actions);
    actions.clear();
    app.play(SoundId(7), &mut actions);
    assert_eq!(actions.len(), 1);
    assert!(matches!(actions[0], JAppAction::StopStream));
    assert!(!app.is_playing());
}

#[test]
fn registration_errors_leave_mapping_unchanged() {
    let mut app = JApp::new();
    let a = app.load_sound("a.wav", bits(&[0.1])).unwrap();
    assert_eq!(app.register_hoktey_for_sound("alt+", a, us_key_scan, accept), Err(String::from("No key specified")));
    assert_eq!(app.register_hoktey_for_sound("meta+a", a, us_key_scan, accept), Err(String::from("Invalid modifiersmeta")));
    let taken = |_: usize, _: u32, _: u32| 0;
    assert_eq!(app.register_hoktey_for_sound("alt+a", a, us_key_scan, taken), Err(String::from("Register failed.")));
    let mut actions = Vec::new();
    assert!(!app.process_events(press("alt+a"), None, &mut actions));
}

#[test]
fn configured_output_device_is_found() {
    let mut app = JApp::new();
    let names = vec![String::from("Speakers"), String::from("Cable Input"), String::from("Cable Input")];
    assert_eq!(app.get_output_audio_device(&names), None);
    app.set_output_device("Cable Input");
    assert_eq!(app.get_output_audio_device(&names), Some(1));
    app.set_output_device("Headset");
    assert_eq!(app.get_output_audio_device(&names), None);
}

#[test]
fn window_is_created_once() {
    let mut ui = JAppUI::new();
    ui.set_current_device(&String::from("Speakers"));
    assert!(ui.current_device().is_none());
    assert!(ui.show());
    assert!(!ui.show());
    assert!(ui.is_open());
    ui.set_current_device(&String::from("Speakers"));
    assert_eq!(ui.current_device(), Some(&String::from("Speakers")));
    ui.set_devices(&[String::from("A"), String::from("B")]);
    assert_eq!(ui.devices(), &vec![String::from("A"), String::from("B")]);
}
