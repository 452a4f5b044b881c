use clipr::trigger::{is_chord_held, Key, TriggerMonitor};

const CHORD: [Key; 3] = [Key::LControl, Key::LAlt, Key::S];

#[test]
fn chord_needs_all_its_keys() {
    assert!(is_chord_held(&[Key::S, Key::LControl, Key::LAlt]));
    assert!(is_chord_held(&[Key::Other, Key::LOption, Key::S, Key::LControl]));
    assert!(!is_chord_held(&[Key::S, Key::LControl]));
    assert!(!is_chord_held(&[Key::LControl, Key::LAlt]));
    assert!(!is_chord_held(&[Key::S, Key::LAlt, Key::LOption]));
    assert!(!is_chord_held(&[]));
}

#[test]
fn holding_chord_fires_once() {
    let mut m = TriggerMonitor::new();
    assert!(!m.armed());
    assert!(m.poll(&CHORD));
    assert!(m.armed());
    for _ in 0..5 {
        assert!(!m.poll(&CHORD));
    }
}

#[test]
fn release_and_rehold_fires_again() {
    let mut m = TriggerMonitor::new();
    let mut events = 0;
    for _ in 0..3 {
        if m.poll(&CHORD) {
            events += 1;
        }
    }
    assert!(!m.poll(&[Key::LControl, Key::S]));
    assert!(!m.armed());
    for _ in 0..3 {
        if m.poll(&CHORD) {
            events += 1;
        }
    }
    assert_eq!(events, 2);
}

#[test]
fn no_event_without_chord() {
    let mut m = TriggerMonitor::new();
    assert!(!m.poll(&[Key::S]));
    assert!(!m.poll(&[]));
    assert!(!m.armed());
}
