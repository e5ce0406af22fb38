//! The version of an installed Kotlin compiler, as its build file tells it.

use vstd::prelude::*;
use vstd::string::*;

use crate::location::{Location, LocationView};
use crate::text;

verus! {

/// The file in the home directory of a compiler that tells its version.
pub const BUILD_FILE: &'static str = "build.txt";

/// Why a compiler is not the one that was asked for.
#[derive(Debug)]
pub enum VersionError {
    /// It is of another version.
    Mismatch { expected: String, actual: String, home: Location },
    /// Its version cannot be told.
    Unknown { home: Location },
}

/// What a [`VersionError`] says.
pub enum VersionErrorView {
    Mismatch { expected: Seq<char>, actual: Seq<char>, home: LocationView },
    Unknown { home: LocationView },
}

impl View for VersionError {
    type V = VersionErrorView;

    open spec fn view(&self) -> VersionErrorView {
        match self {
            VersionError::Mismatch { expected, actual, home } => VersionErrorView::Mismatch {
                expected: expected@,
                actual: actual@,
                home: home@,
            },
            VersionError::Unknown { home } => VersionErrorView::Unknown { home: home@ },
        }
    }
}

impl VersionErrorView {
    /// The message for the error, where `place` shows the home directory.
    pub open spec fn message(self, place: Seq<char>) -> Seq<char> {
        match self {
            VersionErrorView::Mismatch { expected, actual, .. } =>
                "kotlin version mismatch: expected "@ + expected + ", found "@ + actual + " at "@
                    + place,
            VersionErrorView::Unknown { .. } => "cannot determine kotlin version at "@ + place,
        }
    }
}

impl VersionError {
    /// The directory that was looked at.
    pub fn home(&self) -> (r: &Location)
        ensures
            r@ == (match self@ {
                VersionErrorView::Mismatch { home, .. } => home,
                VersionErrorView::Unknown { home } => home,
            }),
    {
        match self {
            VersionError::Mismatch { home, .. } => home,
            VersionError::Unknown { home } => home,
        }
    }

    /// The message for the error, where `place` shows the home directory.
    pub fn message(&self, place: &str) -> (r: String)
        ensures
            r@ == self@.message(place@),
    {
        match self {
            VersionError::Mismatch { expected, actual, .. } => {
                "kotlin version mismatch: expected ".to_owned().concat(expected.as_str()).concat(
                    ", found ",
                ).concat(actual.as_str()).concat(" at ").concat(place)
            },
            VersionError::Unknown { .. } => {
                "cannot determine kotlin version at ".to_owned().concat(place)
            },
        }
    }
}

/// The version that a build file tells: its first word, up to the first dash. No
/// version can be told where the file could not be read or holds no word.
pub open spec fn version_told(build_file: Option<Seq<char>>) -> Option<Seq<char>> {
    match build_file {
        Some(content) => text::word_before_dash(content),
        None => None,
    }
}

/// The text of a file that may not have been read.
pub open spec fn file_view(build_file: Option<&str>) -> Option<Seq<char>> {
    match build_file {
        Some(content) => Some(content@),
        None => None,
    }
}

/// The version that a build file tells; `build_file` is `None` where it could not be
/// read.
pub fn read_version(build_file: Option<&str>) -> (r: Option<String>)
    ensures
        match r {
            Some(version) => version_told(file_view(build_file)) == Some(version@),
            None => version_told(file_view(build_file)) is None,
        },
{
    match build_file {
        Some(content) => text::first_word_before_dash(content),
        None => None,
    }
}

/// Whether the compiler in `home`, whose build file holds `build_file`, is of the
/// version `expected`.
pub open spec fn version_verified(
    build_file: Option<Seq<char>>,
    home: LocationView,
    expected: Seq<char>,
) -> Result<(), VersionErrorView> {
    match version_told(build_file) {
        Some(actual) => if actual == expected {
            Ok(())
        } else {
            Err(VersionErrorView::Mismatch { expected, actual, home })
        },
        None => Err(VersionErrorView::Unknown { home }),
    }
}

/// Checks that the compiler in `home` is of the version `expected`, going by what its
/// build file holds; `build_file` is `None` where it could not be read.
pub fn verify_version(build_file: Option<&str>, home: &Location, expected: &str) -> (r: Result<
    (),
    VersionError,
>)
    ensures
        match r {
            Ok(()) => version_verified(file_view(build_file), home@, expected@) is Ok,
            Err(e) => version_verified(file_view(build_file), home@, expected@)
                == Err::<(), VersionErrorView>(e@),
        },
{
    let wanted: String = expected.to_owned();
    match read_version(build_file) {
        Some(actual) => if actual == wanted {
            Ok(())
        } else {
            Err(VersionError::Mismatch { expected: wanted, actual, home: home.clone() })
        },
        None => Err(VersionError::Unknown { home: home.clone() }),
    }
}

proof fn plain_prefix_is_plain(s: Seq<char>)
    ensures
        forall|i: int|
            0 <= i < text::plain_prefix(s).len() ==> !text::is_white(
                #[trigger] text::plain_prefix(s)[i],
            ) && text::plain_prefix(s)[i] != '-',
        text::plain_prefix(s).len() <= s.len(),
        text::plain_prefix(s) == s.take(text::plain_prefix(s).len() as int),
        text::plain_prefix(s).len() < s.len() ==> text::is_white(
            s[text::plain_prefix(s).len() as int],
        ) || s[text::plain_prefix(s).len() as int] == '-',
    decreases s.len(),
{
    if s.len() > 0 && !text::is_white(s[0]) && s[0] != '-' {
        let rest = s.drop_first();
        plain_prefix_is_plain(rest);
        let n = text::plain_prefix(rest).len() as int;
        assert forall|i: int| 0 <= i < n + 1 implies !text::is_white(
            #[trigger] text::plain_prefix(s)[i],
        ) && text::plain_prefix(s)[i] != '-' by {
            if i > 0 {
                assert(text::plain_prefix(s)[i] == text::plain_prefix(rest)[i - 1]);
            }
        }
        assert(s.take(n + 1) =~= seq![s[0]] + rest.take(n));
    } else {
        assert(s.take(0) =~= Seq::empty());
    }
}

proof fn trimmed_starts_with_a_word(s: Seq<char>)
    ensures
        text::trim_start(s).len() <= s.len(),
        text::trim_start(s) == s.skip(s.len() - text::trim_start(s).len()),
        forall|i: int| 0 <= i < s.len() - text::trim_start(s).len() ==> text::is_white(s[i]),
        text::trim_start(s).len() > 0 ==> !text::is_white(text::trim_start(s)[0]),
    decreases s.len(),
{
    if s.len() > 0 && text::is_white(s[0]) {
        let rest = s.drop_first();
        trimmed_starts_with_a_word(rest);
        let n = rest.len() - text::trim_start(rest).len();
        assert(s.skip(n + 1) =~= rest.skip(n));
        assert forall|i: int| 0 <= i < n + 1 implies text::is_white(s[i]) by {
            if i > 0 {
                assert(s[i] == rest[i - 1]);
            }
        }
    } else {
        assert(s.skip(0) =~= s);
    }
}

/// Whether `version` is what follows the white space at the start of `content`, up to
/// the next white space or dash: it begins at `start`, after nothing but white space,
/// holds neither white space nor a dash, and goes on as far as it can.
pub open spec fn stands_at(content: Seq<char>, version: Seq<char>, start: int) -> bool {
    &&& 0 <= start < content.len()
    &&& start + version.len() <= content.len()
    &&& version == content.subrange(start, start + version.len())
    &&& forall|i: int| 0 <= i < start ==> text::is_white(#[trigger] content[i])
    &&& !text::is_white(content[start])
    &&& forall|i: int|
        0 <= i < version.len() ==> !text::is_white(#[trigger] version[i]) && version[i] != '-'
    &&& start + version.len() < content.len() ==> text::is_white(content[start + version.len()])
        || content[start + version.len()] == '-'
}

/// A version that can be told stands in the build file as its first word, up to the
/// first dash. It cannot be told exactly where the file holds white space alone.
pub proof fn told_version_stands_in_the_file(content: Seq<char>)
    ensures
        version_told(Some(content)) is Some ==> exists|start: int|
            #[trigger] stands_at(content, version_told(Some(content))->0, start),
        version_told(Some(content)) is None <==> forall|i: int|
            0 <= i < content.len() ==> text::is_white(#[trigger] content[i]),
{
    let words = text::trim_start(content);
    let start = content.len() - words.len();
    trimmed_starts_with_a_word(content);
    plain_prefix_is_plain(words);
    if words.len() > 0 {
        let version = text::plain_prefix(words);
        assert(content[start] == words[0]);
        assert(version =~= content.subrange(start, start + version.len()));
        if start + version.len() < content.len() {
            assert(content[start + version.len()] == words[version.len() as int]);
        }
        assert(stands_at(content, version, start));
        assert(stands_at(content, version_told(Some(content))->0, start));
    }
}

/// A version with a dash or white space in it, such as that of a release candidate,
/// is never found: no compiler passes for it.
pub proof fn dashed_version_is_never_verified(
    build_file: Option<Seq<char>>,
    home: LocationView,
    expected: Seq<char>,
    at: int,
)
    requires
        0 <= at < expected.len(),
        expected[at] == '-' || text::is_white(expected[at]),
    ensures
        version_verified(build_file, home, expected) is Err,
{
    if let Some(content) = build_file {
        plain_prefix_is_plain(text::trim_start(content));
        if version_told(build_file) == Some(expected) {
            assert(text::plain_prefix(text::trim_start(content))[at] == expected[at]);
        }
    }
}

/// Of one compiler, at most one version is verified.
pub proof fn one_version_is_verified(
    build_file: Option<Seq<char>>,
    home: LocationView,
    a: Seq<char>,
    b: Seq<char>,
)
    requires
        version_verified(build_file, home, a) is Ok,
        version_verified(build_file, home, b) is Ok,
    ensures
        a == b,
{
}

/// The version that stands in a build file is the one that is told, wherever in the
/// file it ends.
pub proof fn standing_version_is_told(content: Seq<char>, version: Seq<char>, start: int)
    requires
        stands_at(content, version, start),
    ensures
        version_told(Some(content)) == Some(version),
{
    told_version_stands_in_the_file(content);
    assert(!text::is_white(content[start]));
    let told = version_told(Some(content))->0;
    let at = choose|at: int| #[trigger] stands_at(content, told, at);
    if at < start {
        assert(text::is_white(content[at]));
    }
    if start < at {
        assert(text::is_white(content[start]));
    }
    if told.len() < version.len() {
        assert(content[start + told.len()] == version[told.len() as int]);
    }
    if version.len() < told.len() {
        assert(content[start + version.len()] == told[version.len() as int]);
    }
    assert(told =~= version);
}

/// A file that could not be read tells no version.
pub proof fn unread_file_tells_nothing()
    ensures
        version_told(None) is None,
{
}

/// A compiler is of the version that was asked for exactly where its build file tells
/// that version. Where it tells another, the error names both and the home directory;
/// where it tells none, the error names the home directory.
pub proof fn version_is_verified_by_what_is_told(
    build_file: Option<Seq<char>>,
    home: LocationView,
    expected: Seq<char>,
)
    ensures
        version_verified(build_file, home, expected) is Ok <==> version_told(build_file) == Some(
            expected,
        ),
        version_told(build_file) matches Some(actual) ==> (actual != expected
            ==> version_verified(build_file, home, expected) == Err::<(), VersionErrorView>(
            VersionErrorView::Mismatch { expected, actual, home },
        )),
        version_told(build_file) is None ==> version_verified(build_file, home, expected) == Err::<
            (),
            VersionErrorView,
        >(VersionErrorView::Unknown { home }),
{
}

/// What is said of a version that was not verified: what was expected, what was found
/// and where, whole and in this order.
pub proof fn message_tells_the_whole_error(
    expected: Seq<char>,
    actual: Seq<char>,
    home: LocationView,
    place: Seq<char>,
)
    ensures
        (VersionErrorView::Mismatch { expected, actual, home }).message(place)
            == "kotlin version mismatch: expected "@ + expected + ", found "@ + actual + " at "@
            + place,
        (VersionErrorView::Unknown { home }).message(place)
            == "cannot determine kotlin version at "@ + place,
{
}

/// An error is seen whole.
pub proof fn version_errors_are_seen_whole(error: VersionError)
    ensures
        match error {
            VersionError::Mismatch { expected, actual, home } => error@
                == (VersionErrorView::Mismatch {
                expected: expected@,
                actual: actual@,
                home: home@,
            }),
            VersionError::Unknown { home } => error@ == (VersionErrorView::Unknown {
                home: home@,
            }),
        },
{
}

} // verus!
