use borneo::status::{OutputFormat, SlotError, Status, StatusHandle, StatusSlot};

/// What waits in a handle, as text.
fn sent(handle: &mut StatusHandle) -> Vec<String> {
    handle.drain().iter().map(|s| format!("{s:?}")).collect()
}

#[test]
fn a_new_handle_is_empty_and_keeps_its_format() {
    let mut handle = StatusHandle::init(OutputFormat::Json);
    assert_eq!(handle.format(), OutputFormat::Json);
    assert!(handle.drain().is_empty());
    handle.log("x".to_string());
    handle.shutdown();
    assert_eq!(handle.format(), OutputFormat::Json);
    assert_eq!(StatusHandle::init(OutputFormat::Text).format(), OutputFormat::Text);
}

#[test]
fn every_message_is_sent_in_order() {
    let mut handle = StatusHandle::init(OutputFormat::Text);
    handle.begin("k".to_string(), "m".to_string());
    handle.update("k".to_string(), "n".to_string());
    handle.end("k".to_string());
    handle.end_log("k".to_string(), "done".to_string());
    handle.clear();
    handle.log("l".to_string());
    handle.fatal("f".to_string());
    handle.stdout(vec![1, 2]);
    handle.stderr(vec![3]);
    handle.send(Status::Clear);
    assert_eq!(
        sent(&mut handle),
        vec![
            r#"Begin { key: "k", msg: "m" }"#,
            r#"Update { key: "k", msg: "n" }"#,
            r#"End { key: "k", msg: None }"#,
            r#"End { key: "k", msg: Some("done") }"#,
            "Clear",
            r#"Log("l")"#,
            r#"Fatal("f")"#,
            "Stdout([1, 2])",
            "Stderr([3])",
            "Clear",
        ]
    );
    assert!(handle.drain().is_empty());
}

#[test]
fn a_closed_handle_drops_messages_but_keeps_what_was_sent() {
    let mut handle = StatusHandle::init(OutputFormat::Text);
    handle.log("before".to_string());
    handle.shutdown();
    handle.log("after".to_string());
    handle.stdout(vec![1]);
    assert_eq!(sent(&mut handle), vec![r#"Log("before")"#]);
    handle.shutdown();
    handle.begin("k".to_string(), "m".to_string());
    assert!(handle.drain().is_empty());
}

#[test]
fn empty_output_is_not_sent() {
    let mut handle = StatusHandle::init(OutputFormat::Text);
    handle.stdout(vec![]);
    handle.stderr(vec![]);
    assert!(handle.drain().is_empty());
}

#[test]
fn artifacts_have_two_tasks() {
    let mut handle = StatusHandle::init(OutputFormat::Text);
    handle.resolving("g:a:1");
    handle.downloading("g:a:1");
    handle.resolved("g:a:1");
    handle.downloaded("g:a:1");
    assert_eq!(
        sent(&mut handle),
        vec![
            r#"Begin { key: "resolve:g:a:1", msg: "resolving g:a:1" }"#,
            r#"Begin { key: "dl:g:a:1", msg: "downloading g:a:1" }"#,
            r#"End { key: "resolve:g:a:1", msg: None }"#,
            r#"End { key: "dl:g:a:1", msg: None }"#,
        ]
    );
}

#[test]
fn a_task_that_goes_well_leaves_its_message() {
    let mut handle = StatusHandle::init(OutputFormat::Text);
    let r: Result<i32, String> =
        handle.task("k", "working".to_string(), "worked".to_string(), |handle| (handle, Ok(7)));
    assert_eq!(r, Ok(7));
    assert_eq!(
        sent(&mut handle),
        vec![
            r#"Begin { key: "k", msg: "working" }"#,
            r#"End { key: "k", msg: Some("worked") }"#,
        ]
    );
}

#[test]
fn a_task_that_fails_leaves_no_message() {
    let mut handle = StatusHandle::init(OutputFormat::Text);
    let r: Result<i32, String> =
        handle.task("k", "working".to_string(), "worked".to_string(), |handle| {
            (handle, Err("no".to_string()))
        });
    assert_eq!(r, Err("no".to_string()));
    assert_eq!(
        sent(&mut handle),
        vec![
            r#"Begin { key: "k", msg: "working" }"#,
            r#"End { key: "k", msg: None }"#,
        ]
    );
    handle.task_done("k", "worked".to_string(), false);
    handle.task_done("k", "worked".to_string(), true);
    assert_eq!(
        sent(&mut handle),
        vec![
            r#"End { key: "k", msg: None }"#,
            r#"End { key: "k", msg: Some("worked") }"#,
        ]
    );
}

#[test]
fn what_a_task_sends_stands_between_its_begin_and_its_end() {
    let mut handle = StatusHandle::init(OutputFormat::Json);
    handle.log("before".to_string());
    let mut seen: Vec<String> = Vec::new();
    let r: Result<(), ()> = handle.task("k", "s".to_string(), "d".to_string(), |mut handle| {
        seen = sent(&mut handle);
        handle.update("k".to_string(), "more".to_string());
        handle.log("inside".to_string());
        (handle, Ok(()))
    });
    assert!(r.is_ok());
    assert_eq!(seen, vec![r#"Log("before")"#, r#"Begin { key: "k", msg: "s" }"#]);
    assert_eq!(
        sent(&mut handle),
        vec![
            r#"Update { key: "k", msg: "more" }"#,
            r#"Log("inside")"#,
            r#"End { key: "k", msg: Some("d") }"#,
        ]
    );
    assert_eq!(handle.format(), OutputFormat::Json);
}

#[test]
fn there_is_one_handle() {
    let mut slot = StatusSlot::new();
    assert_eq!(slot.get().err(), Some(SlotError::NotInitialized));
    assert_eq!(slot.init(OutputFormat::Json), Ok(()));
    slot.get().ok().unwrap().log("x".to_string());
    assert_eq!(slot.init(OutputFormat::Text), Err(SlotError::AlreadyInitialized));
    let handle = slot.get().ok().unwrap();
    assert_eq!(handle.format(), OutputFormat::Json);
    assert_eq!(sent(handle), vec![r#"Log("x")"#]);
    assert_eq!(SlotError::AlreadyInitialized.message(), "StatusHandle already initialized");
    assert_eq!(SlotError::NotInitialized.message(), "StatusHandle not initialized");
}
