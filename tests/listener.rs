use input_agent::config::{actions_for_event, Config, InputTrigger, ServerConnectionConfig};
use input_agent::devices::{handle_event, EventOutcome, RawEvent};
use input_agent::protocol::{encode_action, Action};

const KEY_A: u16 = 30;
const KEY_B: u16 = 48;

fn connection() -> ServerConnectionConfig {
    ServerConnectionConfig {
        server_addr: "127.0.0.1:8443".to_string(),
        server_domain: "server.local".to_string(),
        server_ca_bytes: vec![],
        cert_bytes: vec![],
        key_bytes: vec![],
    }
}

fn config(actions: Vec<(InputTrigger, Vec<Action>)>) -> Config {
    Config { server_connection: connection(), actions }
}

fn trigger(names: Option<Vec<&str>>, key: u16, value: Option<i32>) -> InputTrigger {
    InputTrigger {
        device_names: names.map(|v| v.into_iter().map(|s| s.to_string()).collect()),
        key,
        value,
    }
}

fn scene(id: &str) -> Action {
    Action::ActivateScene(id.to_string())
}

#[test]
fn non_press_values_emit_nothing() {
    let cfg = config(vec![(trigger(None, KEY_A, None), vec![scene("s")])]);
    for value in [0, 2, -1, 3] {
        let out = handle_event(&cfg, "kbd", RawEvent { code: KEY_A, value });
        assert_eq!(out, EventOutcome::Ignored);
    }
}

#[test]
fn single_match_with_empty_actions_is_unhandled() {
    let cfg = config(vec![
        (trigger(None, KEY_A, Some(1)), vec![]),
        (trigger(None, KEY_B, None), vec![scene("other")]),
    ]);
    let out = handle_event(&cfg, "kbd", RawEvent { code: KEY_A, value: 1 });
    assert_eq!(out, EventOutcome::Unhandled);
}

#[test]
fn unmatched_key_is_unhandled() {
    let cfg = config(vec![(trigger(None, KEY_A, None), vec![scene("s")])]);
    let out = handle_event(&cfg, "kbd", RawEvent { code: KEY_B, value: 1 });
    assert_eq!(out, EventOutcome::Unhandled);
}

#[test]
fn trigger_without_names_matches_any_device() {
    let cfg = config(vec![(trigger(None, KEY_A, Some(1)), vec![scene("s")])]);
    for name in ["keyboard-A", "remote", "", "unknown"] {
        let out = handle_event(&cfg, name, RawEvent { code: KEY_A, value: 1 });
        assert_eq!(out, EventOutcome::Dispatch(vec![scene("s")]));
    }
}

#[test]
fn trigger_with_names_matches_only_those_devices() {
    let cfg = config(vec![(trigger(Some(vec!["pad", "keyboard-A"]), KEY_A, None), vec![scene("s")])]);
    let hit = handle_event(&cfg, "keyboard-A", RawEvent { code: KEY_A, value: 1 });
    assert_eq!(hit, EventOutcome::Dispatch(vec![scene("s")]));
    let miss = handle_event(&cfg, "keyboard-B", RawEvent { code: KEY_A, value: 1 });
    assert_eq!(miss, EventOutcome::Unhandled);
}

#[test]
fn trigger_value_must_equal_event_value() {
    let t = trigger(None, KEY_A, Some(2));
    let entries = vec![(t, vec![scene("s")])];
    assert!(actions_for_event(&entries, &"kbd".to_string(), KEY_A, 2).len() == 1);
    assert!(actions_for_event(&entries, &"kbd".to_string(), KEY_A, 1).is_empty());
    let cfg = config(entries);
    assert_eq!(handle_event(&cfg, "kbd", RawEvent { code: KEY_A, value: 1 }), EventOutcome::Unhandled);
}

#[test]
fn two_matching_entries_concatenate_in_table_order() {
    let cfg = config(vec![
        (trigger(None, KEY_A, None), vec![scene("one"), scene("two")]),
        (trigger(None, KEY_B, None), vec![scene("never")]),
        (trigger(Some(vec!["kbd"]), KEY_A, Some(1)), vec![Action::Update("{\"x\":1}".to_string())]),
    ]);
    let out = handle_event(&cfg, "kbd", RawEvent { code: KEY_A, value: 1 });
    assert_eq!(
        out,
        EventOutcome::Dispatch(vec![
            scene("one"),
            scene("two"),
            Action::Update("{\"x\":1}".to_string())
        ])
    );
}

#[test]
fn press_on_keyboard_a_sends_movie_mode_once() {
    let cfg = config(vec![(trigger(Some(vec!["keyboard-A"]), KEY_A, Some(1)), vec![scene("movie-mode")])]);
    let press = handle_event(&cfg, "keyboard-A", RawEvent { code: KEY_A, value: 1 });
    let acts = match press {
        EventOutcome::Dispatch(acts) => acts,
        other => panic!("unexpected outcome {other:?}"),
    };
    assert_eq!(acts.len(), 1);
    let line = encode_action(&acts[0]).unwrap();
    assert_eq!(line, "{\"ActivateScene\":\"movie-mode\"}");
    let release = handle_event(&cfg, "keyboard-A", RawEvent { code: KEY_A, value: 0 });
    assert_eq!(release, EventOutcome::Ignored);
}

#[test]
fn trigger_from_key_name_uses_evdev_codes() {
    let t = InputTrigger::from_key_name(Some(vec!["kbd".to_string()]), "KEY_A", Some(1)).unwrap();
    assert_eq!(t.key, KEY_A);
    assert_eq!(t.value, Some(1));
    assert_eq!(t.device_names, Some(vec!["kbd".to_string()]));
    let b = InputTrigger::from_key_name(None, "KEY_B", None).unwrap();
    assert_eq!(b.key, KEY_B);
    assert!(InputTrigger::from_key_name(None, "KEY_NOT_A_KEY", None).is_none());
}

#[test]
fn trigger_matches_checks_each_field() {
    let t = trigger(Some(vec!["kbd"]), KEY_A, Some(1));
    assert!(t.matches(&"kbd".to_string(), KEY_A, 1));
    assert!(!t.matches(&"kbd".to_string(), KEY_B, 1));
    assert!(!t.matches(&"kbd".to_string(), KEY_A, 0));
    assert!(!t.matches(&"mouse".to_string(), KEY_A, 1));
}
