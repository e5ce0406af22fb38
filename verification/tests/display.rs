use borneo::display::Display;
use borneo::progress::{Effect, Frame, ProgressDisplay, Stopped, MAX_VISIBLE};
use borneo::status::{OutputFormat, Status, StatusHandle};

fn begin(key: &str, msg: &str) -> Status {
    Status::Begin { key: key.to_string(), msg: msg.to_string() }
}

fn update(key: &str, msg: &str) -> Status {
    Status::Update { key: key.to_string(), msg: msg.to_string() }
}

fn end(key: &str, msg: Option<&str>) -> Status {
    Status::End { key: key.to_string(), msg: msg.map(String::from) }
}

/// The task lines of a frame; an empty slot is a dash.
fn shown(frame: &Frame) -> String {
    let mut line = String::new();
    for slot in &frame.slots {
        line.push_str(slot.as_deref().unwrap_or("-"));
        line.push('|');
    }
    line.push_str(frame.overflow.as_deref().unwrap_or(""));
    line
}

fn effects(effects: Vec<Effect>) -> Vec<String> {
    effects
        .iter()
        .map(|e| match e {
            Effect::Refresh(frame) => format!("refresh {}", shown(frame)),
            Effect::Print(line) => format!("print {line}"),
            Effect::Output(line) => format!("output {line}"),
        })
        .collect()
}

#[test]
fn a_new_display_shows_nothing() {
    let display = ProgressDisplay::new();
    assert_eq!(shown(&display.refresh()), "-|-|-|-|");
    assert_eq!(display.refresh().slots.len(), MAX_VISIBLE);
    assert_eq!(display.finish(), Ok(()));
}

#[test]
fn tasks_are_shown_in_the_order_they_began() {
    let mut display = ProgressDisplay::new();
    assert_eq!(effects(display.handle(begin("a", "one"))), vec!["refresh one|-|-|-|"]);
    assert_eq!(effects(display.handle(begin("b", "two"))), vec!["refresh one|two|-|-|"]);
    assert_eq!(effects(display.handle(update("a", "1"))), vec!["refresh 1|two|-|-|"]);
    assert_eq!(effects(display.handle(end("a", None))), vec!["refresh two|-|-|-|"]);
    assert_eq!(
        effects(display.handle(end("b", Some("done")))),
        vec!["refresh -|-|-|-|", "print done"]
    );
}

#[test]
fn hidden_tasks_are_counted() {
    let mut display = ProgressDisplay::new();
    for n in 1..=4 {
        display.handle(begin(&format!("k{n}"), &format!("m{n}")));
    }
    assert_eq!(shown(&display.refresh()), "m1|m2|m3|m4|");
    display.handle(begin("k5", "m5"));
    assert_eq!(shown(&display.refresh()), "m1|m2|m3|m4|and 1 more...");
    for n in 6..=16 {
        display.handle(begin(&format!("k{n}"), &format!("m{n}")));
    }
    assert_eq!(shown(&display.refresh()), "m1|m2|m3|m4|and 12 more...");
    display.handle(end("k2", None));
    assert_eq!(shown(&display.refresh()), "m1|m3|m4|m5|and 11 more...");
}

#[test]
fn an_update_of_an_unknown_task_does_nothing() {
    let mut display = ProgressDisplay::new();
    display.handle(begin("a", "one"));
    assert!(display.handle(update("b", "two")).is_empty());
    assert_eq!(shown(&display.refresh()), "one|-|-|-|");
}

#[test]
fn an_update_reaches_the_first_task_of_the_key() {
    let mut display = ProgressDisplay::new();
    display.handle(begin("x", "zero"));
    display.handle(begin("a", "one"));
    display.handle(begin("a", "two"));
    assert_eq!(effects(display.handle(update("a", "new"))), vec!["refresh zero|new|two|-|"]);
}

#[test]
fn an_end_removes_every_task_of_the_key() {
    let mut display = ProgressDisplay::new();
    display.handle(begin("a", "one"));
    display.handle(begin("b", "two"));
    display.handle(begin("a", "three"));
    assert_eq!(effects(display.handle(end("a", None))), vec!["refresh two|-|-|-|"]);
    assert_eq!(effects(display.handle(end("a", None))), vec!["refresh two|-|-|-|"]);
}

#[test]
fn a_finished_task_leaves_the_display_as_it_was() {
    let mut display = ProgressDisplay::new();
    display.handle(begin("a", "one"));
    display.handle(begin("b", "two"));
    display.handle(update("b", "more"));
    display.handle(end("b", Some("done")));
    assert_eq!(shown(&display.refresh()), "one|-|-|-|");
}

#[test]
fn an_artifact_leaves_the_display_as_it_was() {
    let mut display = ProgressDisplay::new();
    display.handle(begin("a", "one"));
    let mut handle = StatusHandle::init(OutputFormat::Text);
    handle.resolving("g:a:1");
    handle.downloading("g:a:1");
    let mut shown_last = String::new();
    for status in handle.drain() {
        display.handle(status);
        shown_last = shown(&display.refresh());
    }
    assert_eq!(shown_last, "one|resolving g:a:1|downloading g:a:1|-|");
    handle.downloaded("g:a:1");
    handle.resolved("g:a:1");
    for status in handle.drain() {
        display.handle(status);
    }
    assert_eq!(shown(&display.refresh()), "one|-|-|-|");
}

#[test]
fn clearing_forgets_all_tasks() {
    let mut display = ProgressDisplay::new();
    display.handle(begin("a", "one"));
    display.handle(begin("b", "two"));
    assert_eq!(effects(display.handle(Status::Clear)), vec!["refresh -|-|-|-|"]);
}

#[test]
fn messages_are_printed_even_if_empty() {
    let mut display = ProgressDisplay::new();
    assert_eq!(effects(display.handle(Status::Log("hello".to_string()))), vec!["print hello"]);
    assert_eq!(effects(display.handle(Status::Log(String::new()))), vec!["print "]);
}

#[test]
fn output_is_printed_line_by_line() {
    let mut display = ProgressDisplay::new();
    let bytes = "one\r\ntwo\n\nfünf".as_bytes().to_vec();
    assert_eq!(
        effects(display.handle(Status::Stdout(bytes.clone()))),
        vec!["print one", "print two", "print ", "print fünf"]
    );
    assert_eq!(
        effects(display.handle(Status::Stderr(bytes))),
        vec!["print one", "print two", "print ", "print fünf"]
    );
}

#[test]
fn output_that_is_no_text_is_not_printed() {
    let mut display = ProgressDisplay::new();
    assert!(display.handle(Status::Stdout(vec![b'a', 0xff, b'b'])).is_empty());
    assert!(display.handle(Status::Stderr(vec![0xc3])).is_empty());
}

#[test]
fn a_fatal_message_stops_the_text_display() {
    let mut display = ProgressDisplay::new();
    display.handle(begin("a", "one"));
    assert_eq!(effects(display.handle(Status::Fatal("no".to_string()))), vec!["print no"]);
    assert!(display.handle(Status::Log("more".to_string())).is_empty());
    assert!(display.handle(Status::Clear).is_empty());
    assert!(display.handle(Status::Fatal("again".to_string())).is_empty());
    assert_eq!(shown(&display.refresh()), "one|-|-|-|");
    assert_eq!(display.finish(), Err(Stopped));
}

#[test]
fn a_display_has_the_format_that_was_asked_for() {
    let mut text = Display::new(OutputFormat::Text);
    let mut json = Display::new(OutputFormat::Json);
    assert_eq!(effects(text.handle(begin("a", "one"))), vec!["refresh one|-|-|-|"]);
    assert_eq!(
        effects(json.handle(begin("a", "one"))),
        vec![r#"output {"event":"begin","key":"a","msg":"one"}"#]
    );
    assert!(json.handle(Status::Clear).is_empty());
    assert_eq!(text.finish(), Ok(()));
    assert_eq!(json.finish(), Ok(()));
}

#[test]
fn nothing_follows_a_fatal_message_in_either_format() {
    for format in [OutputFormat::Text, OutputFormat::Json] {
        let mut display = Display::new(format);
        assert_eq!(display.handle(Status::Fatal("no".to_string())).len(), 1);
        assert!(display.handle(Status::Log("x".to_string())).is_empty());
        assert!(display.handle(begin("a", "b")).is_empty());
        assert!(display.handle(Status::Stdout(vec![b'x'])).is_empty());
        assert_eq!(display.finish(), Err(Stopped));
    }
}
