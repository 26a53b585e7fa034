use std::sync::mpsc;
use type_bridge::keyboard::{
    execute, is_enabled, merge_commands, plan_tick, set_enabled, shortcut,
    toggle, Direction, Key, KeyCommand, KeyStroke, Operation, TypingSwitch,
    MAX_COMMANDS_PER_TICK,
};

// ── enable/disable ─────────────────────────────────────────

#[test]
fn test_enabled_default() {
    let s = TypingSwitch::new();
    assert!(is_enabled(&s));
}

#[test]
fn test_set_enabled_false() {
    let mut s = TypingSwitch::new();
    set_enabled(&mut s, true);
    set_enabled(&mut s, false);
    assert!(!is_enabled(&s));
    set_enabled(&mut s, true);
}

#[test]
fn test_set_enabled_toggle() {
    let mut s = TypingSwitch::new();
    set_enabled(&mut s, true);
    assert!(is_enabled(&s));
    set_enabled(&mut s, false);
    assert!(!is_enabled(&s));
    set_enabled(&mut s, true);
    assert!(is_enabled(&s));
}

#[test]
fn toggle_flips_and_reports_new_state() {
    let mut s = TypingSwitch::new();
    assert!(!toggle(&mut s));
    assert!(!is_enabled(&s));
    assert!(toggle(&mut s));
    assert!(is_enabled(&s));
}

// ── bounded channel backpressure ───────────────────────────

#[test]
fn test_sync_channel_rejects_when_full() {
    let (tx, rx) = mpsc::sync_channel::<KeyCommand>(2);

    assert!(tx.send(KeyCommand::TypeText("a".into())).is_ok());
    assert!(tx.send(KeyCommand::TypeText("b".into())).is_ok());
    assert!(tx.try_send(KeyCommand::TypeText("c".into())).is_err());

    let mut count = 0;
    while rx.try_recv().is_ok() {
        count += 1;
    }
    assert_eq!(count, 2);
}

// ── text merging ───────────────────────────────────────────

#[test]
fn test_merge_consecutive_text() {
    let cmds = vec![
        KeyCommand::TypeText("a".into()),
        KeyCommand::TypeText("b".into()),
    ];
    let merged = merge_commands(cmds);
    assert_eq!(merged.len(), 1);
    match &merged[0] {
        KeyCommand::TypeText(t) => assert_eq!(t, "ab"),
        _ => panic!("expected TypeText"),
    }
}

#[test]
fn test_merge_respects_enter_boundary() {
    let cmds = vec![
        KeyCommand::TypeText("a".into()),
        KeyCommand::Enter,
        KeyCommand::TypeText("b".into()),
    ];
    let merged = merge_commands(cmds);
    assert_eq!(merged.len(), 3);
}

#[test]
fn test_merge_respects_backspace_boundary() {
    let cmds = vec![
        KeyCommand::TypeText("x".into()),
        KeyCommand::Backspace,
        KeyCommand::TypeText("y".into()),
    ];
    let merged = merge_commands(cmds);
    assert_eq!(merged.len(), 3);
}

#[test]
fn test_merge_respects_clear_pc_field_boundary() {
    let cmds = vec![
        KeyCommand::TypeText("before".into()),
        KeyCommand::ClearPcField,
        KeyCommand::TypeText("after".into()),
    ];
    let merged = merge_commands(cmds);
    assert_eq!(merged.len(), 3);
}

#[test]
fn test_merge_empty_input() {
    let merged = merge_commands(vec![]);
    assert!(merged.is_empty());
}

#[test]
fn test_merge_single_command() {
    let merged = merge_commands(vec![KeyCommand::TypeText("only".into())]);
    assert_eq!(merged.len(), 1);
}

#[test]
fn merge_joins_runs_and_keeps_boundaries_in_order() {
    let merged = merge_commands(vec![
        KeyCommand::TypeText("he".into()),
        KeyCommand::TypeText("llo".into()),
        KeyCommand::TypeText(" 😀".into()),
        KeyCommand::Backspace,
        KeyCommand::Backspace,
        KeyCommand::TypeText("x".into()),
        KeyCommand::Enter,
    ]);
    assert_eq!(merged.len(), 5);
    assert!(matches!(&merged[0], KeyCommand::TypeText(t) if t == "hello 😀"));
    assert!(matches!(merged[1], KeyCommand::Backspace));
    assert!(matches!(merged[2], KeyCommand::Backspace));
    assert!(matches!(&merged[3], KeyCommand::TypeText(t) if t == "x"));
    assert!(matches!(merged[4], KeyCommand::Enter));
}

#[test]
fn merge_twice_changes_nothing_more() {
    let once = merge_commands(vec![
        KeyCommand::TypeText("a".into()),
        KeyCommand::TypeText("b".into()),
        KeyCommand::ClearPcField,
        KeyCommand::TypeText("c".into()),
    ]);
    let twice = merge_commands(vec![
        KeyCommand::TypeText("ab".into()),
        KeyCommand::ClearPcField,
        KeyCommand::TypeText("c".into()),
    ]);
    assert_eq!(once.len(), twice.len());
    let again = merge_commands(once);
    assert_eq!(again.len(), 3);
    assert!(matches!(&again[0], KeyCommand::TypeText(t) if t == "ab"));
    assert!(matches!(&again[2], KeyCommand::TypeText(t) if t == "c"));
}

// ── command queue end-to-end ────────────────────────────────

#[test]
fn test_command_queue_preserves_unicode() {
    let (tx, rx) = mpsc::sync_channel::<KeyCommand>(8);
    tx.send(KeyCommand::TypeText("emoji 😀 🚀".into())).unwrap();
    drop(tx);

    let commands: Vec<_> = rx.iter().collect();
    assert_eq!(commands.len(), 1);
    match &commands[0] {
        KeyCommand::TypeText(t) => assert_eq!(t, "emoji 😀 🚀"),
        _ => panic!("expected TypeText"),
    }
}

// ── how commands are carried out ────────────────────────────

fn click(key: Key) -> KeyStroke {
    KeyStroke { key, direction: Direction::Click }
}

#[test]
fn execute_plans_each_command() {
    match execute(KeyCommand::TypeText("hi".into()), Key::Control) {
        Operation::Paste(t) => assert_eq!(t, "hi"),
        _ => panic!("expected Paste"),
    }
    match execute(KeyCommand::Backspace, Key::Control) {
        Operation::Keys(k) => assert_eq!(k, vec![click(Key::Backspace)]),
        _ => panic!("expected Keys"),
    }
    match execute(KeyCommand::Enter, Key::Meta) {
        Operation::Keys(k) => assert_eq!(k, vec![click(Key::Return)]),
        _ => panic!("expected Keys"),
    }
    match execute(KeyCommand::ClearPcField, Key::Meta) {
        Operation::Keys(k) => assert_eq!(
            k,
            vec![
                KeyStroke { key: Key::Meta, direction: Direction::Press },
                click(Key::Unicode('a')),
                KeyStroke { key: Key::Meta, direction: Direction::Release },
                click(Key::Backspace),
            ]
        ),
        _ => panic!("expected Keys"),
    }
}

#[test]
fn shortcut_holds_the_modifier_around_the_letter() {
    assert_eq!(
        shortcut(Key::Control, 'v'),
        vec![
            KeyStroke { key: Key::Control, direction: Direction::Press },
            click(Key::Unicode('v')),
            KeyStroke { key: Key::Control, direction: Direction::Release },
        ]
    );
}

#[test]
fn plan_tick_merges_then_plans() {
    let ops = plan_tick(
        vec![
            KeyCommand::TypeText("a".into()),
            KeyCommand::TypeText("b".into()),
            KeyCommand::Enter,
        ],
        Key::Control,
    );
    assert_eq!(ops.len(), 2);
    assert!(matches!(&ops[0], Operation::Paste(t) if t == "ab"));
    assert!(matches!(&ops[1], Operation::Keys(k) if k == &vec![click(Key::Return)]));
    assert_eq!(MAX_COMMANDS_PER_TICK, 32);
}
