use keyremap::codec::{decode_raw, RawEvent, TimeStamp};
use keyremap::combo_key::{combo_key_chars, get_combo_key};
use keyremap::device::{
    init_output_device, output_device_descriptor, startup_plan, SetupStep, BUS_USB,
};
use keyremap::emitter::{
    emit_event, emit_input_event, emit_key, emit_key_sequence, emit_key_sequence_toggle,
};
use keyremap::engine::{
    find_combo, handle_meta_combo, process_event, same_codes, Config, State,
};
use keyremap::keys::{
    KeyEvent, KeyValue, EV_KEY, EV_MSC, EV_SYN, KEY_A, KEY_C, KEY_CAPSLOCK, KEY_F1, KEY_LEFTALT,
    KEY_LEFTCTRL, KEY_LEFTMETA, KEY_MAX, KEY_PLAYPAUSE, KEY_V,
};
use keyremap::reader::{
    get_key_event, get_keyboard_file_descriptors, is_keyboard_path, next_event_step, ReadStep,
};
use std::collections::VecDeque;

fn records(out: &[u8]) -> Vec<(u16, u16, i32)> {
    assert_eq!(out.len() % 24, 0);
    out.chunks(24)
        .map(|chunk| {
            let raw = decode_raw(chunk).unwrap();
            assert_eq!(raw.time, TimeStamp { sec: 0, usec: 0 });
            (raw.kind, raw.code, raw.value)
        })
        .collect()
}

fn key(code: u16, value: i32) -> (u16, u16, i32) {
    (EV_KEY, code, value)
}

const SYNC: (u16, u16, i32) = (0, 0, 0);

fn on(code: u16) -> KeyEvent {
    KeyEvent { code, value: KeyValue::On }
}

fn off(code: u16) -> KeyEvent {
    KeyEvent { code, value: KeyValue::Off }
}

fn hold(code: u16) -> KeyEvent {
    KeyEvent { code, value: KeyValue::Hold }
}

fn history(state: &State) -> Vec<u16> {
    state.pressed.iter().copied().collect()
}

#[test]
fn emitting_a_key_writes_two_records() {
    for (value, number) in [(KeyValue::On, 1), (KeyValue::Off, 0), (KeyValue::Hold, 2)] {
        let mut out: Vec<u8> = Vec::new();
        emit_key(&mut out, KEY_C, value);
        assert_eq!(out.len(), 48);
        assert_eq!(records(&out), vec![key(KEY_C, number), SYNC]);
        assert_eq!(&out[24..], &[0u8; 24]);
    }
}

#[test]
fn emitting_appends_to_what_is_there() {
    let mut out: Vec<u8> = vec![9u8; 24];
    emit_key(&mut out, KEY_A, KeyValue::On);
    assert_eq!(out.len(), 72);
    assert_eq!(&out[..24], &[9u8; 24]);
    assert_eq!(records(&out[24..]), vec![key(KEY_A, 1), SYNC]);
}

#[test]
fn emitting_one_record_writes_it_alone() {
    let mut out: Vec<u8> = Vec::new();
    let record = RawEvent { time: TimeStamp { sec: 5, usec: 6 }, kind: EV_MSC, code: 4, value: 9 };
    emit_input_event(&mut out, record);
    assert_eq!(out.len(), 24);
    assert_eq!(decode_raw(&out), Some(record));
}

#[test]
fn emitting_an_event_of_any_class_adds_the_sync_record() {
    let mut out: Vec<u8> = Vec::new();
    emit_event(&mut out, EV_MSC, 4, 70);
    assert_eq!(records(&out), vec![(EV_MSC, 4, 70), SYNC]);
}

#[test]
fn a_sequence_is_emitted_in_order() {
    let mut out: Vec<u8> = Vec::new();
    emit_key_sequence(&mut out, vec![KEY_LEFTCTRL, KEY_C, KEY_V], KeyValue::Off);
    assert_eq!(
        records(&out),
        vec![key(KEY_LEFTCTRL, 0), SYNC, key(KEY_C, 0), SYNC, key(KEY_V, 0), SYNC]
    );
    let mut none: Vec<u8> = Vec::new();
    emit_key_sequence(&mut none, vec![], KeyValue::On);
    assert!(none.is_empty());
}

#[test]
fn a_toggle_presses_all_then_releases_all() {
    let mut out: Vec<u8> = Vec::new();
    emit_key_sequence_toggle(&mut out, vec![KEY_LEFTCTRL, KEY_C]);
    assert_eq!(
        records(&out),
        vec![
            key(KEY_LEFTCTRL, 1),
            SYNC,
            key(KEY_C, 1),
            SYNC,
            key(KEY_LEFTCTRL, 0),
            SYNC,
            key(KEY_C, 0),
            SYNC
        ]
    );
}

#[test]
fn single_remap_scenario() {
    let mut config = Config::new();
    config.add_single(KEY_CAPSLOCK, KEY_LEFTCTRL);
    let mut state = State::new();
    let mut out: Vec<u8> = Vec::new();
    process_event(&mut out, &mut state, &config, on(KEY_CAPSLOCK));
    assert_eq!(records(&out), vec![key(KEY_LEFTCTRL, 1), SYNC]);
    assert_eq!(history(&state), vec![KEY_LEFTCTRL]);
    process_event(&mut out, &mut state, &config, off(KEY_CAPSLOCK));
    assert_eq!(
        records(&out),
        vec![key(KEY_LEFTCTRL, 1), SYNC, key(KEY_LEFTCTRL, 0), SYNC]
    );
    assert!(history(&state).is_empty());
}

#[test]
fn single_remap_keeps_every_state() {
    let mut config = Config::new();
    config.add_single(KEY_F1, KEY_PLAYPAUSE);
    config.add_single(KEY_CAPSLOCK, KEY_LEFTCTRL);
    for (event, number) in [(on(KEY_F1), 1), (off(KEY_F1), 0), (hold(KEY_F1), 2)] {
        let mut state = State::new();
        let mut out: Vec<u8> = Vec::new();
        process_event(&mut out, &mut state, &config, event);
        assert_eq!(records(&out), vec![key(KEY_PLAYPAUSE, number), SYNC]);
    }
}

#[test]
fn a_later_single_remap_replaces_an_earlier_one() {
    let mut config = Config::new();
    config.add_single(KEY_CAPSLOCK, KEY_A);
    config.add_single(KEY_CAPSLOCK, KEY_LEFTCTRL);
    let mut state = State::new();
    let mut out: Vec<u8> = Vec::new();
    process_event(&mut out, &mut state, &config, on(KEY_CAPSLOCK));
    assert_eq!(records(&out), vec![key(KEY_LEFTCTRL, 1), SYNC]);
}

#[test]
fn chord_remap_scenario() {
    let mut config = Config::new();
    config.add_combo(vec![KEY_LEFTMETA, KEY_C], vec![KEY_LEFTCTRL, KEY_C]);
    let mut state = State::new();
    let mut first: Vec<u8> = Vec::new();
    process_event(&mut first, &mut state, &config, on(KEY_LEFTMETA));
    assert_eq!(records(&first), vec![key(KEY_LEFTMETA, 1), SYNC]);
    let mut second: Vec<u8> = Vec::new();
    process_event(&mut second, &mut state, &config, on(KEY_C));
    assert_eq!(
        records(&second),
        vec![
            key(KEY_LEFTCTRL, 0),
            SYNC,
            key(KEY_C, 0),
            SYNC,
            key(KEY_LEFTCTRL, 1),
            SYNC,
            key(KEY_C, 1),
            SYNC,
            key(KEY_LEFTCTRL, 0),
            SYNC,
            key(KEY_C, 0),
            SYNC
        ]
    );
    assert_eq!(history(&state), vec![KEY_LEFTMETA, KEY_C]);
}

#[test]
fn unmapped_keys_pass_through() {
    let mut config = Config::new();
    config.add_single(KEY_CAPSLOCK, KEY_LEFTCTRL);
    config.add_combo(vec![KEY_LEFTMETA, KEY_C], vec![KEY_LEFTCTRL, KEY_C]);
    let mut state = State::new();
    for (event, number) in [(on(KEY_A), 1), (hold(KEY_A), 2), (off(KEY_A), 0), (on(KEY_MAX), 1)] {
        let mut out: Vec<u8> = Vec::new();
        process_event(&mut out, &mut state, &config, event);
        assert_eq!(records(&out), vec![key(event.code, number), SYNC]);
    }
}

#[test]
fn chord_fires_on_the_exact_history_only() {
    let mut config = Config::new();
    config.add_combo(vec![KEY_LEFTMETA, KEY_C], vec![KEY_LEFTCTRL, KEY_C]);
    let burst_len = 12 * 24;
    let feeds: Vec<(Vec<u16>, bool)> = vec![
        (vec![KEY_LEFTMETA, KEY_C], true),
        (vec![KEY_C, KEY_LEFTMETA], false),
        (vec![KEY_LEFTMETA], false),
        (vec![KEY_C], false),
        (vec![KEY_A, KEY_LEFTMETA, KEY_C], false),
        (vec![KEY_LEFTMETA, KEY_C, KEY_A], false),
        (vec![KEY_LEFTMETA, KEY_A, KEY_C], false),
    ];
    for (codes, fires) in feeds {
        let mut state = State::new();
        let mut last: Vec<u8> = Vec::new();
        for code in &codes {
            last = Vec::new();
            process_event(&mut last, &mut state, &config, on(*code));
        }
        if fires {
            assert_eq!(last.len(), burst_len);
        } else {
            assert_eq!(records(&last), vec![key(*codes.last().unwrap(), 1), SYNC]);
        }
    }
}

#[test]
fn chords_see_substituted_codes() {
    let mut config = Config::new();
    config.add_single(KEY_CAPSLOCK, KEY_LEFTMETA);
    config.add_combo(vec![KEY_LEFTMETA, KEY_C], vec![KEY_V]);
    let mut state = State::new();
    let mut out: Vec<u8> = Vec::new();
    process_event(&mut out, &mut state, &config, on(KEY_CAPSLOCK));
    assert_eq!(records(&out), vec![key(KEY_LEFTMETA, 1), SYNC]);
    let mut out: Vec<u8> = Vec::new();
    process_event(&mut out, &mut state, &config, on(KEY_C));
    assert_eq!(
        records(&out),
        vec![key(KEY_V, 0), SYNC, key(KEY_V, 1), SYNC, key(KEY_V, 0), SYNC]
    );
}

#[test]
fn a_held_chord_fires_again_on_repeat() {
    let mut config = Config::new();
    config.add_combo(vec![KEY_LEFTALT, KEY_V], vec![KEY_LEFTCTRL, KEY_V]);
    let mut state = State::new();
    let mut out: Vec<u8> = Vec::new();
    process_event(&mut out, &mut state, &config, on(KEY_LEFTALT));
    process_event(&mut out, &mut state, &config, on(KEY_V));
    let mut out: Vec<u8> = Vec::new();
    process_event(&mut out, &mut state, &config, hold(KEY_V));
    assert_eq!(out.len(), 12 * 24);
    assert_eq!(history(&state), vec![KEY_LEFTALT, KEY_V]);
}

#[test]
fn a_later_chord_remap_replaces_an_earlier_one() {
    let mut config = Config::new();
    config.add_combo(vec![KEY_LEFTMETA, KEY_C], vec![KEY_A]);
    config.add_combo(vec![KEY_LEFTMETA, KEY_V], vec![KEY_F1]);
    config.add_combo(vec![KEY_LEFTMETA, KEY_C], vec![KEY_V]);
    let pressed: VecDeque<u16> = VecDeque::from(vec![KEY_LEFTMETA, KEY_C]);
    assert_eq!(find_combo(&config, &pressed), Some(2));
    let pressed: VecDeque<u16> = VecDeque::from(vec![KEY_LEFTMETA, KEY_V]);
    assert_eq!(find_combo(&config, &pressed), Some(1));
    let pressed: VecDeque<u16> = VecDeque::from(vec![KEY_LEFTMETA]);
    assert_eq!(find_combo(&config, &pressed), None);
}

#[test]
fn release_removes_the_oldest_press() {
    let config = Config::new();
    let mut state = State::new();
    let mut out: Vec<u8> = Vec::new();
    process_event(&mut out, &mut state, &config, on(KEY_A));
    process_event(&mut out, &mut state, &config, on(KEY_C));
    assert_eq!(history(&state), vec![KEY_A, KEY_C]);
    process_event(&mut out, &mut state, &config, off(KEY_C));
    assert_eq!(history(&state), vec![KEY_C]);
    process_event(&mut out, &mut state, &config, off(KEY_V));
    assert!(history(&state).is_empty());
}

#[test]
fn release_at_an_empty_history_changes_nothing() {
    let config = Config::new();
    let mut state = State::new();
    let mut out: Vec<u8> = Vec::new();
    process_event(&mut out, &mut state, &config, off(KEY_A));
    assert!(history(&state).is_empty());
    assert_eq!(records(&out), vec![key(KEY_A, 0), SYNC]);
}

#[test]
fn repeat_leaves_the_history_alone() {
    let config = Config::new();
    let mut state = State::new();
    let mut out: Vec<u8> = Vec::new();
    process_event(&mut out, &mut state, &config, on(KEY_A));
    process_event(&mut out, &mut state, &config, hold(KEY_A));
    process_event(&mut out, &mut state, &config, hold(KEY_C));
    assert_eq!(history(&state), vec![KEY_A]);
    assert_eq!(
        records(&out),
        vec![key(KEY_A, 1), SYNC, key(KEY_A, 2), SYNC, key(KEY_C, 2), SYNC]
    );
}

#[test]
fn the_same_key_can_be_held_twice() {
    let config = Config::new();
    let mut state = State::new();
    let mut out: Vec<u8> = Vec::new();
    process_event(&mut out, &mut state, &config, on(KEY_A));
    process_event(&mut out, &mut state, &config, on(KEY_A));
    assert_eq!(history(&state), vec![KEY_A, KEY_A]);
}

#[test]
fn no_chord_emits_nothing_from_the_chord_handler() {
    let mut config = Config::new();
    config.add_combo(vec![KEY_LEFTMETA, KEY_C], vec![KEY_LEFTCTRL, KEY_C]);
    let state = State { pressed: VecDeque::from(vec![KEY_C]) };
    let mut out: Vec<u8> = vec![7u8];
    assert!(!handle_meta_combo(&mut out, &state, &config));
    assert_eq!(out, vec![7u8]);
    let state = State { pressed: VecDeque::from(vec![KEY_LEFTMETA, KEY_C]) };
    let mut out: Vec<u8> = Vec::new();
    assert!(handle_meta_combo(&mut out, &state, &config));
    assert_eq!(out.len(), 12 * 24);
}

#[test]
fn triggers_compare_code_for_code() {
    let pressed: VecDeque<u16> = VecDeque::from(vec![1, 2, 3]);
    assert!(same_codes(&vec![1, 2, 3], &pressed));
    assert!(!same_codes(&vec![1, 2], &pressed));
    assert!(!same_codes(&vec![1, 2, 3, 4], &pressed));
    assert!(!same_codes(&vec![3, 2, 1], &pressed));
    assert!(!same_codes(&vec![1, 2, 4], &pressed));
    assert!(same_codes(&vec![], &VecDeque::new()));
}

#[test]
fn chord_text_joins_decimal_codes() {
    assert_eq!(get_combo_key(vec![KEY_LEFTMETA, KEY_C]), "125-46");
    assert_eq!(get_combo_key(vec![KEY_LEFTCTRL, KEY_C]), "29-46");
    assert_eq!(get_combo_key(vec![KEY_C, KEY_LEFTCTRL]), "46-29");
    assert_eq!(get_combo_key(vec![]), "");
    assert_eq!(get_combo_key(vec![0]), "0");
    assert_eq!(get_combo_key(vec![KEY_MAX]), "767");
    assert_eq!(get_combo_key(vec![65535, 10, 100, 1000, 10000, 9]), "65535-10-100-1000-10000-9");
    assert_eq!(combo_key_chars(&vec![1, 23]), vec!['1', '-', '2', '3']);
}

#[test]
fn chord_text_tells_chords_apart() {
    let chords: Vec<Vec<u16>> = vec![
        vec![],
        vec![1],
        vec![12],
        vec![1, 2],
        vec![2, 1],
        vec![1, 2, 3],
        vec![12, 3],
        vec![1, 23],
        vec![123],
    ];
    for a in &chords {
        for b in &chords {
            assert_eq!(get_combo_key(a.clone()) == get_combo_key(b.clone()), a == b);
        }
    }
}

#[test]
fn only_key_records_are_delivered() {
    let zero = TimeStamp { sec: 0, usec: 0 };
    assert_eq!(next_event_step(None), ReadStep::Report);
    let sync = RawEvent { time: zero, kind: EV_SYN, code: 0, value: 0 };
    assert_eq!(next_event_step(Some(sync)), ReadStep::Skip);
    let misc = RawEvent { time: zero, kind: EV_MSC, code: 4, value: 458756 };
    assert_eq!(next_event_step(Some(misc)), ReadStep::Skip);
    let other = RawEvent { time: zero, kind: 2, code: 0, value: 1 };
    assert_eq!(next_event_step(Some(other)), ReadStep::Skip);
    let press = RawEvent { time: TimeStamp { sec: 10, usec: 20 }, kind: EV_KEY, code: 30, value: 1 };
    assert_eq!(next_event_step(Some(press)), ReadStep::Deliver(on(30)));
    assert_eq!(get_key_event(&press), Some(on(30)));
    assert_eq!(get_key_event(&sync), None);
    let repeat = RawEvent { time: zero, kind: EV_KEY, code: 30, value: 2 };
    assert_eq!(get_key_event(&repeat), Some(hold(30)));
    let odd = RawEvent { time: zero, kind: EV_KEY, code: 30, value: -5 };
    assert_eq!(get_key_event(&odd), Some(off(30)));
}

#[test]
fn registration_steps_come_in_order() {
    let steps = init_output_device();
    assert_eq!(steps.len(), 2 + 768 + 2);
    assert_eq!(steps[0], SetupStep::SetEventBit(EV_SYN));
    assert_eq!(steps[1], SetupStep::SetEventBit(EV_KEY));
    for k in 0..768usize {
        assert_eq!(steps[2 + k], SetupStep::SetKeyBit(k as u16));
    }
    assert_eq!(steps[769], SetupStep::SetKeyBit(KEY_MAX));
    assert_eq!(steps[770], SetupStep::WriteDescriptor);
    assert_eq!(steps[771], SetupStep::CreateDevice);
}

#[test]
fn output_device_has_its_identity() {
    let bytes = output_device_descriptor();
    assert_eq!(bytes.len(), 1116);
    assert_eq!(&bytes[0..5], "keycf".as_bytes());
    assert!(bytes[5..80].iter().all(|b| *b == 0));
    assert_eq!(BUS_USB, 3);
    assert_eq!(&bytes[80..88], &[3, 0, 1, 0, 1, 0, 1, 0]);
    assert!(bytes[88..].iter().all(|b| *b == 0));
}

#[test]
fn grab_failure_registers_nothing() {
    assert_eq!(startup_plan(false, false), None);
    assert_eq!(startup_plan(true, false), None);
    assert_eq!(startup_plan(false, true), None);
    assert_eq!(startup_plan(true, true), Some(init_output_device()));
}

#[test]
fn keyboard_paths_end_in_kbd() {
    assert!(is_keyboard_path("/dev/input/by-path/platform-i8042-serio-0-event-kbd"));
    assert!(is_keyboard_path("kbd"));
    assert!(!is_keyboard_path("/dev/input/by-path/platform-i8042-serio-1-event-mouse"));
    assert!(!is_keyboard_path("kb"));
    assert!(!is_keyboard_path(""));
    assert!(!is_keyboard_path("kbd "));
    assert!(!is_keyboard_path("KBD"));
    assert!(is_keyboard_path("\u{e9}\u{4e2d}-kbd"));
    assert!(!is_keyboard_path("kbd\u{e9}"));
}

#[test]
fn keyboard_paths_are_kept_in_order() {
    let listing: Vec<String> = vec![
        "/dev/input/by-path/pci-0000:00:14.0-usb-0:2.2.4.3:1.0-event-kbd".to_string(),
        "/dev/input/by-path/pci-0000:00:14.0-usb-0:3:1.0-event-mouse".to_string(),
        "/dev/input/by-path/platform-i8042-serio-0-event-kbd".to_string(),
        "kbd-not".to_string(),
    ];
    assert_eq!(
        get_keyboard_file_descriptors(&listing),
        vec![listing[0].clone(), listing[2].clone()]
    );
    assert!(get_keyboard_file_descriptors(&Vec::new()).is_empty());
}
