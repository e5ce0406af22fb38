use borneo::kotlin::{
    Arg, Kotlin, KotlinCompiler, Setup, SetupError, SetupEvent, CACHE_DIR, HOME_VARIABLE,
};
use borneo::location::Location;
use borneo::status::{OutputFormat, StatusHandle};

fn handle() -> StatusHandle {
    StatusHandle::init(OutputFormat::Text)
}

fn sent(handle: &mut StatusHandle) -> Vec<String> {
    handle.drain().iter().map(|s| format!("{s:?}")).collect()
}

/// A location, its parts one after the other.
fn path(place: &Location) -> String {
    let mut path = String::from_utf8(place.base.clone()).unwrap();
    for name in &place.below {
        path.push('>');
        path.push_str(name);
    }
    path
}

fn home(setup: &Setup) -> String {
    match setup {
        Setup::Ready(kotlin) => path(&kotlin.home),
        other => panic!("{other:?}"),
    }
}

fn start(version: Option<&str>, home: Option<&str>) -> Setup {
    Kotlin::new(version.map(String::from), home.map(Location::of_text), &Location::of_text("/b"))
}

fn file(content: &str) -> Option<String> {
    Some(content.to_string())
}

#[test]
fn a_home_without_a_version_is_used_as_it_is() {
    assert_eq!(home(&start(None, Some("/k"))), "/k");
    assert_eq!(HOME_VARIABLE, "KOTLIN_HOME");
}

#[test]
fn nothing_given_is_an_error() {
    match start(None, None) {
        Setup::Failed(error) => {
            assert!(matches!(error, SetupError::NothingGiven));
            assert_eq!(
                error.message("").unwrap(),
                "kotlin version must be set in the manifest or KOTLIN_HOME must be set"
            );
        }
        other => panic!("{other:?}"),
    }
}

#[test]
fn a_home_of_the_version_is_used() {
    let mut status = handle();
    let setup = start(Some("1.9.0"), Some("/k"));
    assert!(matches!(setup, Setup::CheckHome { .. }));
    let setup = setup.step(SetupEvent::HomeChecked { build_file: file("1.9.0-r\n") }, &mut status);
    assert_eq!(home(&setup), "/k");
    assert!(status.drain().is_empty());
}

#[test]
fn a_home_of_another_version_is_an_error() {
    let mut status = handle();
    let setup = start(Some("2.0.0"), Some("/k"))
        .step(SetupEvent::HomeChecked { build_file: file("1.9.0-r\n") }, &mut status);
    match &setup {
        Setup::Failed(error) => assert_eq!(
            error.message("/k").unwrap(),
            "kotlin version mismatch: expected 2.0.0, found 1.9.0 at /k"
        ),
        other => panic!("{other:?}"),
    }
    assert!(status.drain().is_empty());
    let setup = start(Some("2.0.0"), Some("/k"))
        .step(SetupEvent::HomeChecked { build_file: None }, &mut status);
    match &setup {
        Setup::Failed(error) => {
            assert_eq!(error.message("/k").unwrap(), "cannot determine kotlin version at /k")
        }
        other => panic!("{other:?}"),
    }
}

#[test]
fn a_cached_compiler_of_the_version_is_used() {
    let mut status = handle();
    let setup = start(Some("1.9.0"), None);
    match &setup {
        Setup::CheckCache { cached, .. } => assert_eq!(path(cached), format!("/b>{CACHE_DIR}")),
        other => panic!("{other:?}"),
    }
    let setup = setup
        .step(SetupEvent::CacheChecked { is_dir: true, build_file: file("1.9.0") }, &mut status);
    assert_eq!(home(&setup), "/b>kotlin");
    assert!(status.drain().is_empty());
}

#[test]
fn a_missing_compiler_is_downloaded() {
    for (is_dir, build_file) in
        [(false, None), (true, None), (true, file("1.8.0-r")), (false, file("1.9.0"))]
    {
        let mut status = handle();
        let setup = start(Some("1.9.0"), None)
            .step(SetupEvent::CacheChecked { is_dir, build_file }, &mut status);
        match &setup {
            Setup::Download { version, out } => {
                assert_eq!(version, "1.9.0");
                assert_eq!(path(out), "/b>kotlin/");
            }
            other => panic!("{other:?}"),
        }
        assert_eq!(
            sent(&mut status),
            vec![r#"Begin { key: "kotlin", msg: "downloading kotlinc 1.9.0" }"#]
        );
        let setup = setup.step(SetupEvent::Downloaded { ok: true }, &mut status);
        assert_eq!(home(&setup), "/b>kotlin/");
        assert_eq!(
            sent(&mut status),
            vec![r#"End { key: "kotlin", msg: Some("downloaded kotlinc 1.9.0") }"#]
        );
    }
}

#[test]
fn a_failed_download_is_an_error() {
    let mut status = handle();
    let setup = start(Some("1.9.0"), None)
        .step(SetupEvent::CacheChecked { is_dir: false, build_file: None }, &mut status)
        .step(SetupEvent::Downloaded { ok: false }, &mut status);
    match &setup {
        Setup::Failed(error) => {
            assert!(matches!(error, SetupError::Download));
            assert_eq!(error.message("/b"), None);
        }
        other => panic!("{other:?}"),
    }
    assert_eq!(
        sent(&mut status),
        vec![
            r#"Begin { key: "kotlin", msg: "downloading kotlinc 1.9.0" }"#,
            r#"End { key: "kotlin", msg: None }"#,
        ]
    );
}

#[test]
fn a_version_with_a_dash_is_always_downloaded() {
    let mut status = handle();
    let setup = start(Some("2.0.0-RC1"), None).step(
        SetupEvent::CacheChecked { is_dir: true, build_file: file("2.0.0-RC1") },
        &mut status,
    );
    assert!(matches!(setup, Setup::Download { .. }));
}

#[test]
fn an_answer_to_another_question_changes_nothing() {
    let mut status = handle();
    let setup = start(Some("1.9.0"), Some("/k")).step(SetupEvent::Downloaded { ok: true }, &mut status);
    assert!(matches!(setup, Setup::CheckHome { .. }));
    let setup = start(None, Some("/k"))
        .step(SetupEvent::HomeChecked { build_file: None }, &mut status)
        .step(SetupEvent::Downloaded { ok: false }, &mut status);
    assert_eq!(home(&setup), "/k");
    assert!(status.drain().is_empty());
}

#[test]
fn a_downloaded_compiler_is_found_again() {
    let mut status = handle();
    let first = start(Some("1.9.0"), None)
        .step(SetupEvent::CacheChecked { is_dir: false, build_file: None }, &mut status)
        .step(SetupEvent::Downloaded { ok: true }, &mut status);
    status.drain();
    let second = start(Some("1.9.0"), None).step(
        SetupEvent::CacheChecked { is_dir: true, build_file: file("1.9.0-release-358") },
        &mut status,
    );
    assert!(status.drain().is_empty());
    assert_eq!(home(&second), home(&first).trim_end_matches('/'));
}

#[test]
fn with_a_home_nothing_is_downloaded() {
    for version in [None, Some("1.9.0")] {
        let mut status = handle();
        let mut setup = start(version, Some("/k"));
        for build_file in [None, file("1.9.0"), file("2.0.0")] {
            setup = setup
                .step(SetupEvent::CacheChecked { is_dir: false, build_file: None }, &mut status)
                .step(SetupEvent::HomeChecked { build_file }, &mut status)
                .step(SetupEvent::Downloaded { ok: true }, &mut status);
            assert!(!matches!(setup, Setup::Download { .. } | Setup::CheckCache { .. }));
        }
        assert!(status.drain().is_empty());
    }
}

fn words(args: &[Arg]) -> Vec<String> {
    args.iter()
        .map(|arg| match arg {
            Arg::Text(text) => text.clone(),
            Arg::Os(bytes) => String::from_utf8_lossy(bytes).into_owned(),
            Arg::Place(place) => path(place),
        })
        .collect()
}

fn bytes(texts: &[&str]) -> Vec<Vec<u8>> {
    texts.iter().map(|t| t.as_bytes().to_vec()).collect()
}

fn strings(texts: &[&str]) -> Vec<String> {
    texts.iter().map(|t| t.to_string()).collect()
}

#[test]
fn the_compiler_is_called_through_its_preloader() {
    let kotlin = Kotlin { home: Location::of_text("/k") };
    let call = kotlin.kotlinc(
        &b"/jdk/bin/java".to_vec(),
        &b"/project".to_vec(),
        &b"/out".to_vec(),
        &bytes(&["/a.jar", "/b.jar"]),
        ":",
        &bytes(&["A.kt", "B.kt"]),
        &strings(&["-Xx", "-nowarn"]),
    );
    assert_eq!(call.program, b"/jdk/bin/java".to_vec());
    assert_eq!(call.current_dir, b"/project".to_vec());
    assert_eq!(call.tool, "kotlinc");
    assert_eq!(
        words(&call.args),
        vec![
            "-cp",
            "/k>lib/kotlin-preloader.jar",
            "org.jetbrains.kotlin.preloading.Preloader",
            "-cp",
            "/k>lib/kotlin-compiler.jar",
            "org.jetbrains.kotlin.cli.jvm.K2JVMCompiler",
            "-d",
            "/out",
            "-cp",
            "/a.jar:/b.jar",
            "-Xx",
            "-nowarn",
            "A.kt",
            "B.kt",
        ]
    );
}

#[test]
fn an_empty_class_path_is_left_out() {
    let kotlin = Kotlin { home: Location::of_text("/k") };
    let call = |class_path: &[&str]| {
        let call = kotlin.kotlinc(
            &b"java".to_vec(),
            &b".".to_vec(),
            &b"/out".to_vec(),
            &bytes(class_path),
            ";",
            &bytes(&[]),
            &strings(&[]),
        );
        words(&call.args).split_off(8)
    };
    assert!(call(&[]).is_empty());
    assert!(call(&[""]).is_empty());
    assert_eq!(call(&["", ""]), vec!["-cp", ";"]);
    assert_eq!(call(&["x"]), vec!["-cp", "x"]);
    assert_eq!(call(&["x", "y", "z"]), vec!["-cp", "x;y;z"]);
}

#[test]
fn a_compiler_hands_its_arguments_on() {
    let compiler = KotlinCompiler::new(
        Kotlin { home: Location::of_text("/k") },
        b"src/kotlin".to_vec(),
        strings(&["-Xx"]),
    );
    assert_eq!(compiler.name(), "kotlinc");
    assert_eq!(compiler.source(), &b"src/kotlin".to_vec());
    let call = compiler.compile(
        &b"java".to_vec(),
        &b"/project".to_vec(),
        &b"/out".to_vec(),
        &bytes(&["/a.jar"]),
        ":",
        &bytes(&["A.kt"]),
    );
    assert_eq!(call.current_dir, b"/project".to_vec());
    assert_eq!(
        words(&call.args).split_off(6),
        vec!["-d", "/out", "-cp", "/a.jar", "-Xx", "A.kt"]
    );
}
