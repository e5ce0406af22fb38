use borneo::json::{output_text, JsonDisplay};
use borneo::progress::Stopped;
use borneo::status::Status;

fn line(status: Status) -> Option<String> {
    JsonDisplay::new().handle(status)
}

fn log(msg: &str) -> String {
    line(Status::Log(msg.to_string())).unwrap()
}

#[test]
fn every_message_has_its_line() {
    let key = || "k".to_string();
    let msg = || "m".to_string();
    let cases = vec![
        (Status::Begin { key: key(), msg: msg() }, r#"{"event":"begin","key":"k","msg":"m"}"#),
        (Status::Update { key: key(), msg: msg() }, r#"{"event":"update","key":"k","msg":"m"}"#),
        (Status::End { key: key(), msg: Some(msg()) }, r#"{"event":"end","key":"k","msg":"m"}"#),
        (Status::End { key: key(), msg: None }, r#"{"event":"end","key":"k"}"#),
        (Status::Fatal(msg()), r#"{"event":"fatal","msg":"m"}"#),
        (Status::Log(msg()), r#"{"event":"log","msg":"m"}"#),
        (Status::Stdout(vec![b'x']), r#"{"data":"x","event":"stdout"}"#),
        (Status::Stderr(vec![b'y']), r#"{"data":"y","event":"stderr"}"#),
    ];
    for (status, expected) in cases {
        assert_eq!(line(status).unwrap(), expected);
    }
}

#[test]
fn clearing_and_empty_messages_have_no_line() {
    assert_eq!(line(Status::Clear), None);
    assert_eq!(line(Status::Log(String::new())), None);
    assert_eq!(line(Status::Fatal(String::new())).unwrap(), r#"{"event":"fatal","msg":""}"#);
    assert_eq!(line(Status::Stdout(vec![])).unwrap(), r#"{"data":"","event":"stdout"}"#);
}

#[test]
fn special_characters_are_escaped() {
    assert_eq!(log("a\"b"), r#"{"event":"log","msg":"a\"b"}"#);
    assert_eq!(log("a\\b"), r#"{"event":"log","msg":"a\\b"}"#);
    assert_eq!(log("\u{8}\t\n\u{c}\r"), r#"{"event":"log","msg":"\b\t\n\f\r"}"#);
    assert_eq!(log("\u{0}\u{1b}\u{1f}"), r#"{"event":"log","msg":"\u0000\u001b\u001f"}"#);
    assert_eq!(log("/ \u{7f}é\u{2028}🦀"), "{\"event\":\"log\",\"msg\":\"/ \u{7f}é\u{2028}🦀\"}");
}

#[test]
fn each_control_character_has_its_escape() {
    for n in 0u8..32 {
        let c = n as char;
        let escape = match c {
            '\u{8}' => "\\b".to_string(),
            '\t' => "\\t".to_string(),
            '\n' => "\\n".to_string(),
            '\u{c}' => "\\f".to_string(),
            '\r' => "\\r".to_string(),
            _ => format!("\\u{n:04x}"),
        };
        assert_eq!(log(&c.to_string()), format!("{{\"event\":\"log\",\"msg\":\"{escape}\"}}"));
    }
}

#[test]
fn a_line_can_be_read_back() {
    for text in ["plain", "a\"b\\c\n\u{1}", "é🦀\u{2029}", "\"}"] {
        let value: serde_json::Value = serde_json::from_str(&log(text)).unwrap();
        assert_eq!(value["event"], "log");
        assert_eq!(value["msg"], text);
    }
}

#[test]
fn a_line_holds_no_line_feed() {
    let text = line(Status::Begin { key: "a\nb".to_string(), msg: "\r\n\u{0}".to_string() }).unwrap();
    assert!(text.chars().all(|c| c >= ' '));
}

#[test]
fn output_that_is_no_text_is_patched() {
    assert_eq!(
        line(Status::Stdout(vec![b'a', 0xff, b'b'])).unwrap(),
        "{\"data\":\"a\u{fffd}b\",\"event\":\"stdout\"}"
    );
    assert_eq!(
        line(Status::Stderr("fünf".as_bytes().to_vec())).unwrap(),
        "{\"data\":\"fünf\",\"event\":\"stderr\"}"
    );
    assert_eq!(output_text("stdout", "x\ny".to_string()), r#"{"data":"x\ny","event":"stdout"}"#);
}

#[test]
fn different_messages_have_different_lines() {
    let end = |key: &str, msg: Option<&str>| {
        line(Status::End { key: key.to_string(), msg: msg.map(String::from) }).unwrap()
    };
    assert_ne!(end("a", None), end("a", Some("")));
    assert_ne!(end("a\",\"msg\":\"b", None), end("a", Some("b")));
    assert_ne!(log("\n"), log("\\n"));
}

#[test]
fn a_fatal_message_stops_the_json_display() {
    let mut display = JsonDisplay::new();
    assert_eq!(display.handle(Status::Log("x".to_string())).unwrap(), log("x"));
    assert_eq!(
        display.handle(Status::Fatal("no".to_string())).unwrap(),
        r#"{"event":"fatal","msg":"no"}"#
    );
    assert_eq!(display.handle(Status::Log("x".to_string())), None);
    assert_eq!(display.finish(), Err(Stopped));
    assert_eq!(JsonDisplay::new().finish(), Ok(()));
}
