use input_agent::protocol::{contains_newline, decode_line, encode_action, starts_with, Action, EncodeError};

#[test]
fn update_request_round_trips() {
    let payloads = ["{\"device_id\":\"lamp\",\"state\":{\"power\":true}}", "{}", "[1,2]", ""];
    for p in payloads {
        let a = Action::Update(p.to_string());
        let line = encode_action(&a).unwrap();
        assert!(!line.contains('\n'));
        assert_eq!(line, format!("{{\"UpdateRequest\":{p}}}"));
        assert_eq!(decode_line(&line), Some(a));
    }
}

#[test]
fn scene_is_quoted_as_json() {
    let a = Action::ActivateScene("say \"hi\"\n".to_string());
    let line = encode_action(&a).unwrap();
    assert_eq!(line, "{\"ActivateScene\":\"say \\\"hi\\\"\\n\"}");
    assert_eq!(decode_line(&line), Some(a));
}

#[test]
fn scene_line_decodes() {
    assert_eq!(
        decode_line("{\"ActivateScene\":\"movie-mode\"}"),
        Some(Action::ActivateScene("movie-mode".to_string()))
    );
    assert_eq!(decode_line("{\"ActivateScene\":movie-mode}"), None);
}

#[test]
fn multi_line_payload_is_refused() {
    let a = Action::Update("{\n}".to_string());
    assert_eq!(encode_action(&a), Err(EncodeError::MultiLine));
}

#[test]
fn unknown_lines_do_not_decode() {
    assert_eq!(decode_line(""), None);
    assert_eq!(decode_line("}"), None);
    assert_eq!(decode_line("{\"Other\":1}"), None);
    assert_eq!(decode_line("{\"UpdateRequest\":1"), None);
}

#[test]
fn text_helpers() {
    assert!(contains_newline("a\nb"));
    assert!(!contains_newline("ab"));
    assert!(starts_with("event3", "event"));
    assert!(!starts_with("even", "event"));
    assert!(!starts_with("mouse0", "event"));
}
