use type_bridge::keyboard::{Direction, Key, KeyStroke};
use type_bridge::paste::{PasteAction, PasteEvent, PasteSession, AFTER_PASTE_MS, SETTLE_MS};

fn describe(a: &PasteAction) -> String {
    match a {
        PasteAction::OpenClipboard => "open".into(),
        PasteAction::ReadClipboard => "read".into(),
        PasteAction::WriteClipboard(t) => format!("write:{t}"),
        PasteAction::Pause(ms) => format!("pause:{ms}"),
        PasteAction::Stroke(KeyStroke { key, direction }) => format!("{key:?}/{direction:?}"),
        PasteAction::Finish => "finish".into(),
    }
}

#[test]
fn smooth_paste_restores_previous_clipboard() {
    let (mut s, first) = PasteSession::start("hello".into(), Key::Control);
    let mut log = vec![describe(&first)];
    let events = vec![
        PasteEvent::Succeeded,
        PasteEvent::Read(Some("old".into())),
        PasteEvent::Succeeded,
        PasteEvent::Succeeded,
        PasteEvent::Succeeded,
        PasteEvent::Succeeded,
        PasteEvent::Succeeded,
        PasteEvent::Succeeded,
        PasteEvent::Succeeded,
    ];
    for e in events {
        log.push(describe(&s.next(e)));
    }
    assert!(s.is_done());
    assert_eq!(
        log,
        vec![
            "open",
            "read",
            "write:hello",
            &format!("pause:{SETTLE_MS}"),
            "Control/Press",
            "Unicode('v')/Click",
            "Control/Release",
            &format!("pause:{AFTER_PASTE_MS}"),
            "write:old",
            "finish",
        ]
    );
    assert_eq!((SETTLE_MS, AFTER_PASTE_MS), (30, 50));
}

#[test]
fn paste_without_previous_text_does_not_restore() {
    let (mut s, _) = PasteSession::start("x".into(), Key::Meta);
    assert!(matches!(s.next(PasteEvent::Succeeded), PasteAction::ReadClipboard));
    assert!(matches!(s.next(PasteEvent::Read(None)), PasteAction::WriteClipboard(t) if t == "x"));
    for _ in 0..5 {
        s.next(PasteEvent::Succeeded);
    }
    assert!(matches!(s.next(PasteEvent::Succeeded), PasteAction::Finish));
    assert!(s.is_done());
    assert!(matches!(s.next(PasteEvent::Succeeded), PasteAction::Finish));
}

#[test]
fn failures_stop_the_paste() {
    let (mut s, _) = PasteSession::start("x".into(), Key::Control);
    assert!(matches!(s.next(PasteEvent::Failed), PasteAction::Finish));
    assert!(s.is_done());

    let (mut s, _) = PasteSession::start("x".into(), Key::Control);
    s.next(PasteEvent::Succeeded);
    s.next(PasteEvent::Read(Some("keep".into())));
    assert!(matches!(s.next(PasteEvent::Failed), PasteAction::Finish));
    assert!(s.is_done());
}

#[test]
fn key_failures_do_not_stop_the_paste() {
    let (mut s, _) = PasteSession::start("x".into(), Key::Control);
    s.next(PasteEvent::Succeeded);
    s.next(PasteEvent::Read(None));
    s.next(PasteEvent::Succeeded);
    assert!(matches!(
        s.next(PasteEvent::Succeeded),
        PasteAction::Stroke(KeyStroke { key: Key::Control, direction: Direction::Press })
    ));
    assert!(matches!(s.next(PasteEvent::Failed), PasteAction::Stroke(_)));
    assert!(matches!(s.next(PasteEvent::Failed), PasteAction::Stroke(_)));
    assert!(matches!(s.next(PasteEvent::Failed), PasteAction::Pause(50)));
}
