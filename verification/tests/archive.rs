use borneo::archive::{
    destination, download_url, plan_unpacking, user_agent, Archive, DownloadFailure, Entry,
    UnpackEnd, UnpackPlan, UnpackStep, REDIRECT_LIMIT, UNPACK_DIR,
};
use borneo::location::Location;
use std::io::{Cursor, Write};
use zip::write::SimpleFileOptions;
use zip::{CompressionMethod, ZipWriter};

/// An archive with the given entries; a name that ends in a slash is a directory.
fn archive(entries: &[(&str, &str)], method: CompressionMethod) -> Vec<u8> {
    let mut zip = ZipWriter::new(Cursor::new(Vec::new()));
    let options = SimpleFileOptions::default().compression_method(method);
    for (name, data) in entries {
        if name.ends_with('/') {
            zip.add_directory(*name, options).unwrap();
        } else {
            zip.start_file(*name, options).unwrap();
            zip.write_all(data.as_bytes()).unwrap();
        }
    }
    zip.finish().unwrap().into_inner()
}

fn stored(entries: &[(&str, &str)]) -> Vec<u8> {
    archive(entries, CompressionMethod::Stored)
}

/// `bytes` with every occurrence of `from` replaced by `to`, of the same length.
fn replaced(mut bytes: Vec<u8>, from: &[u8], to: &[u8]) -> Vec<u8> {
    assert_eq!(from.len(), to.len());
    for i in 0..bytes.len().saturating_sub(from.len() - 1) {
        if &bytes[i..i + from.len()] == from {
            bytes[i..i + from.len()].copy_from_slice(to);
        }
    }
    bytes
}

fn out() -> Location {
    Location::of_text("/b").join(UNPACK_DIR)
}

fn path(place: &Location) -> String {
    let mut path = String::from_utf8(place.base.clone()).unwrap();
    for name in &place.below {
        path.push('>');
        path.push_str(name);
    }
    path
}

fn steps(plan: &UnpackPlan) -> Vec<String> {
    plan.steps
        .iter()
        .map(|step| match step {
            UnpackStep::CreateDir(place) => format!("dir {}", path(place)),
            UnpackStep::WriteFile { index, place } => format!("{index} {}", path(place)),
        })
        .collect()
}

fn names(name: &str) -> Vec<String> {
    name.split('/').map(String::from).collect()
}

fn entry(name: &str, is_dir: bool) -> Option<Entry> {
    Some(Entry { name: Some(name.to_string()), path: Some(names(name)), is_dir })
}

#[test]
fn a_version_has_its_address() {
    assert_eq!(
        download_url("1.9.0"),
        "https://github.com/JetBrains/kotlin/releases/download/v1.9.0/kotlin-compiler-1.9.0.zip"
    );
    assert_eq!(user_agent("0.3.1"), "borneo/0.3.1");
    assert_eq!(REDIRECT_LIMIT, 1);
}

#[test]
fn each_failure_has_its_message() {
    let messages = [
        (DownloadFailure::Fetch, "failed to download kotlin compiler"),
        (DownloadFailure::InvalidArchive, "github returned invalid ZIP file for kotlin compiler"),
        (DownloadFailure::CacheDirectory, "failed to create kotlin cache directory"),
        (DownloadFailure::IllegalName, "kotlin compiler contains illegal file names"),
        (DownloadFailure::CreateFile, "failed to create destination file"),
        (DownloadFailure::CopyFile, "failed to copy to destination file"),
    ];
    for (failure, message) in messages {
        assert_eq!(failure.message(), message);
    }
}

#[test]
fn the_compiler_and_its_build_file_have_places() {
    let place = |name: &str| destination(&names(name), &out()).map(|p| path(&p));
    assert_eq!(place("kotlinc/build.txt"), Some("/b>kotlin/>build.txt".to_string()));
    assert_eq!(place("kotlinc/lib"), Some("/b>kotlin/>lib".to_string()));
    assert_eq!(place("kotlinc/lib/a.jar"), Some("/b>kotlin/>lib>a.jar".to_string()));
    assert_eq!(place("kotlinc/lib/x/y.jar"), Some("/b>kotlin/>lib>x>y.jar".to_string()));
    assert_eq!(place("kotlinc/lib/build.txt"), Some("/b>kotlin/>build.txt".to_string()));
    assert_eq!(place("kotlinc/license/build.txt"), Some("/b>kotlin/>build.txt".to_string()));
}

#[test]
fn other_entries_have_no_place() {
    let place = |name: &str| destination(&names(name), &out());
    for name in ["kotlinc", "kotlinc/bin/kotlinc", "kotlinc/library/x", "lib/a.jar", "build.txt", "x/build.txt"] {
        assert!(place(name).is_none(), "{name}");
    }
    assert!(destination(&vec![], &out()).is_none());
}

#[test]
fn a_plan_follows_the_entries() {
    let entries = vec![
        entry("kotlinc", true),
        entry("kotlinc/bin/kotlinc", false),
        entry("kotlinc/lib", true),
        entry("kotlinc/lib/a.jar", false),
        entry("kotlinc/build.txt", false),
    ];
    let plan = plan_unpacking(&entries, &out());
    assert_eq!(
        steps(&plan),
        vec!["dir /b>kotlin/>lib", "3 /b>kotlin/>lib>a.jar", "4 /b>kotlin/>build.txt"]
    );
    assert_eq!(plan.end, UnpackEnd::Complete);
    let empty = plan_unpacking(&vec![], &out());
    assert!(empty.steps.is_empty());
    assert_eq!(empty.end, UnpackEnd::Complete);
}

#[test]
fn a_plan_stops_at_the_first_bad_entry() {
    let entries = vec![
        entry("kotlinc/lib/a.jar", false),
        Some(Entry { name: None, path: None, is_dir: false }),
        None,
        entry("kotlinc/build.txt", false),
    ];
    let plan = plan_unpacking(&entries, &out());
    assert_eq!(steps(&plan), vec!["0 /b>kotlin/>lib>a.jar"]);
    assert_eq!(plan.end, UnpackEnd::IllegalName);
    let entries = vec![None, Some(Entry { name: None, path: None, is_dir: false })];
    assert_eq!(plan_unpacking(&entries, &out()).end, UnpackEnd::Malformed);
}

#[test]
fn a_real_archive_is_planned_and_read() {
    let entries = [
        ("kotlinc/", ""),
        ("kotlinc/bin/kotlinc", "#!/bin/sh"),
        ("kotlinc/lib/", ""),
        ("kotlinc/lib/kotlin-compiler.jar", "the compiler, the compiler, the compiler"),
        ("kotlinc/build.txt", "1.9.0-release-358"),
    ];
    for method in [CompressionMethod::Stored, CompressionMethod::Deflated] {
        let mut zip = Archive::open(archive(&entries, method)).ok().unwrap();
        let found = zip.entries();
        assert_eq!(found.len(), 5);
        let first = found[0].as_ref().unwrap();
        assert!(first.is_dir);
        assert_eq!(first.path, Some(vec!["kotlinc".to_string()]));
        assert_eq!(first.name.as_deref(), Some("kotlinc/"));
        let fourth = found[3].as_ref().unwrap();
        assert!(!fourth.is_dir);
        assert_eq!(fourth.name.as_deref(), Some("kotlinc/lib/kotlin-compiler.jar"));
        assert_eq!(fourth.path, Some(names("kotlinc/lib/kotlin-compiler.jar")));

        let plan = zip.plan(&out());
        assert_eq!(
            steps(&plan),
            vec![
                "dir /b>kotlin/>lib",
                "3 /b>kotlin/>lib>kotlin-compiler.jar",
                "4 /b>kotlin/>build.txt",
            ]
        );
        assert_eq!(plan.end, UnpackEnd::Complete);
        assert_eq!(zip.data(4).ok().unwrap(), b"1.9.0-release-358".to_vec());
        assert_eq!(zip.data(3).ok().unwrap(), entries[3].1.as_bytes().to_vec());
        assert_eq!(zip.data(0).ok().unwrap(), Vec::<u8>::new());
    }
}

#[test]
fn an_archive_without_entries_is_complete() {
    let mut zip = Archive::open(stored(&[])).ok().unwrap();
    assert!(zip.entries().is_empty());
    let plan = zip.plan(&out());
    assert!(plan.steps.is_empty());
    assert_eq!(plan.end, UnpackEnd::Complete);
}

#[test]
fn other_bytes_are_no_archive() {
    for bytes in [vec![], b"<html>not found</html>".to_vec(), vec![0u8; 1000]] {
        match Archive::open(bytes) {
            Ok(_) => panic!("opened"),
            Err(failed) => {
                assert_eq!(failed.stage, DownloadFailure::InvalidArchive);
                assert!(!failed.cause.to_string().is_empty());
            }
        }
    }
}

#[test]
fn a_name_that_leads_out_is_illegal() {
    let bytes = stored(&[("kotlinc/lib/a", "1"), ("kotlinc/lib/b", "2"), ("kotlinc/lib/c", "3")]);
    let mut zip = Archive::open(replaced(bytes, b"kotlinc/lib/b", b"../../../../b")).ok().unwrap();
    let found = zip.entries();
    assert_eq!(found[1].as_ref().unwrap().path, None);
    assert_eq!(found[2].as_ref().unwrap().path, Some(names("kotlinc/lib/c")));
    let plan = zip.plan(&out());
    assert_eq!(steps(&plan), vec!["0 /b>kotlin/>lib>a"]);
    assert_eq!(plan.end, UnpackEnd::IllegalName);
}

#[test]
fn a_name_that_winds_about_is_made_plain() {
    let bytes = stored(&[("kotlinc/lib/abcdefg", "1")]);
    let mut zip =
        Archive::open(replaced(bytes, b"kotlinc/lib/abcdefg", b"kotlinc/./x/../lib/")).ok().unwrap();
    assert_eq!(zip.entries()[0].as_ref().unwrap().path, Some(names("kotlinc/lib")));
    assert_eq!(steps(&zip.plan(&out())), vec!["dir /b>kotlin/>lib"]);
}

#[test]
fn an_entry_that_cannot_be_read_is_malformed() {
    let bytes = stored(&[("kotlinc/lib/a", "first"), ("kotlinc/lib/b", "second")]);
    // The second local header no longer starts with its signature.
    let at = (4..bytes.len() - 4).find(|&i| &bytes[i..i + 4] == b"PK\x03\x04").unwrap();
    let mut broken = bytes.clone();
    broken[at] = b'X';
    let mut zip = Archive::open(broken).ok().unwrap();
    let found = zip.entries();
    assert!(found[0].is_some());
    assert!(found[1].is_none());
    let plan = zip.plan(&out());
    assert_eq!(steps(&plan), vec!["0 /b>kotlin/>lib>a"]);
    assert_eq!(plan.end, UnpackEnd::Malformed);
}

#[test]
fn data_that_does_not_check_out_is_not_copied() {
    let bytes = stored(&[("kotlinc/lib/a", "first"), ("kotlinc/lib/b", "second")]);
    let mut zip = Archive::open(replaced(bytes, b"second", b"sECOND")).ok().unwrap();
    assert_eq!(zip.data(0).ok().unwrap(), b"first".to_vec());
    let partial = zip.data(1).err().unwrap();
    assert_eq!(partial.failed.stage, DownloadFailure::CopyFile);
    assert!(!partial.failed.cause.to_string().is_empty());
    assert_eq!(partial.read, b"sECOND".to_vec());
    let missing = zip.data(2).err().unwrap();
    assert_eq!(missing.failed.stage, DownloadFailure::CopyFile);
    assert!(missing.read.is_empty());
}

#[test]
fn nothing_is_unpacked_elsewhere() {
    let bytes = stored(&[("kotlinc/lib/x/y", "1"), ("/kotlinc/lib/z", "2"), ("kotlinc/lib/../../w", "3")]);
    let mut zip = Archive::open(bytes).ok().unwrap();
    for step in zip.plan(&out()).steps {
        let place = match step {
            UnpackStep::CreateDir(place) => place,
            UnpackStep::WriteFile { place, .. } => place,
        };
        assert_eq!(place.base, b"/b".to_vec());
        assert_eq!(place.below[0], UNPACK_DIR);
        assert!(place.below.len() > 1);
        assert!(place.below[1..].iter().all(|n| n != ".." && !n.contains('/')));
    }
}

#[test]
fn names_that_need_no_care_are_kept() {
    let entries = [
        ("kotlinc/lib/naïve.txt", "1"),
        ("kotlinc/lib/con", "2"),
        ("kotlinc/lib/a b.jar.", "3"),
        ("kotlinc/lib/ab:c.jar", "4"),
        ("kotlinc/lib/sub/", ""),
    ];
    let mut zip = Archive::open(stored(&entries)).ok().unwrap();
    for (entry, (name, _)) in zip.entries().iter().zip(entries) {
        let entry = entry.as_ref().unwrap();
        assert_eq!(entry.name.as_deref(), Some(name));
        assert_eq!(entry.path, Some(names(name.trim_end_matches('/'))));
    }
    let plan = zip.plan(&out());
    assert_eq!(plan.end, UnpackEnd::Complete);
    assert_eq!(plan.steps.len(), 5);
    assert_eq!(steps(&plan)[3], "3 /b>kotlin/>lib>ab:c.jar");
}

#[test]
fn a_name_that_looks_like_a_drive_leads_nowhere_else() {
    let entries = [("kotlinc/C:..", "1"), ("kotlinc/lib/C:..", "2"), ("C:kotlinc/lib/x", "3")];
    let mut zip = Archive::open(stored(&entries)).ok().unwrap();
    let found = zip.entries();
    for entry in &found {
        let path = entry.as_ref().unwrap().path.as_ref().unwrap();
        assert!(path[0].contains(':') || path.iter().all(|n| n != ".." && !n.contains('/')));
    }
    let plan = zip.plan(&out());
    assert_eq!(plan.end, UnpackEnd::Complete);
    for step in plan.steps {
        let place = match step {
            UnpackStep::CreateDir(place) => place,
            UnpackStep::WriteFile { place, .. } => place,
        };
        assert_eq!(place.below[..2], [UNPACK_DIR.to_string(), "lib".to_string()]);
    }
}

#[test]
fn only_an_illegal_name_is_a_failure_to_unpack() {
    assert_eq!(UnpackEnd::Complete.failure(), None);
    assert_eq!(UnpackEnd::IllegalName.failure(), Some(DownloadFailure::IllegalName));
    assert_eq!(UnpackEnd::Malformed.failure(), None);
}
