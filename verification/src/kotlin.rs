//! Kotlin: how its compiler is found, and how it is called.

use vstd::prelude::*;
use vstd::string::*;

use crate::archive::UNPACK_DIR;
use crate::location::{self, Location, LocationView};
use crate::status::{HandleView, StatusHandle, StatusView};
use crate::text;
use crate::version::{self, VersionError, VersionErrorView};

verus! {

/// The library that loads the compiler, in its home directory.
pub const PRELOADER_JAR: &'static str = "lib/kotlin-preloader.jar";

/// The library that holds the compiler, in its home directory.
pub const COMPILER_JAR: &'static str = "lib/kotlin-compiler.jar";

/// The class that compiles.
pub const COMPILER_CLASS: &'static str = "org.jetbrains.kotlin.cli.jvm.K2JVMCompiler";

/// The class that loads the compiler.
pub const PRELOADER_CLASS: &'static str = "org.jetbrains.kotlin.preloading.Preloader";

/// The environment variable that may name the home directory of a compiler.
pub const HOME_VARIABLE: &'static str = "KOTLIN_HOME";

/// The directory below the build directory where a compiler is looked for that was
/// downloaded before.
pub const CACHE_DIR: &'static str = "kotlin";

/// An installed Kotlin compiler.
#[derive(Debug)]
pub struct Kotlin {
    pub home: Location,
}

/// Why there is no compiler.
#[derive(Debug)]
pub enum SetupError {
    /// Neither a version nor a home directory was given.
    NothingGiven,
    /// The compiler in the given home directory is not of the given version.
    Version(VersionError),
    /// The compiler could not be downloaded.
    Download,
}

/// What a [`SetupError`] says.
pub enum SetupErrorView {
    NothingGiven,
    Version(VersionErrorView),
    Download,
}

impl View for SetupError {
    type V = SetupErrorView;

    open spec fn view(&self) -> SetupErrorView {
        match self {
            SetupError::NothingGiven => SetupErrorView::NothingGiven,
            SetupError::Version(e) => SetupErrorView::Version(e@),
            SetupError::Download => SetupErrorView::Download,
        }
    }
}

impl SetupErrorView {
    /// The message for the error, where `place` shows the home directory that was
    /// looked at. A download that failed has a message of its own.
    pub open spec fn message(self, place: Seq<char>) -> Option<Seq<char>> {
        match self {
            SetupErrorView::NothingGiven => Some(
                "kotlin version must be set in the manifest or KOTLIN_HOME must be set"@,
            ),
            SetupErrorView::Version(e) => Some(e.message(place)),
            SetupErrorView::Download => None,
        }
    }
}

impl SetupError {
    /// The message for the error, where `place` shows the home directory that was
    /// looked at. A download that failed has a message of its own.
    pub fn message(&self, place: &str) -> (r: Option<String>)
        ensures
            text::option_view(r) == self@.message(place@),
    {
        match self {
            SetupError::NothingGiven => Some(
                "kotlin version must be set in the manifest or KOTLIN_HOME must be set".to_owned(),
            ),
            SetupError::Version(e) => Some(e.message(place)),
            SetupError::Download => None,
        }
    }
}

/// How far the search for a compiler has got, and what it needs to know next.
#[derive(Debug)]
pub enum Setup {
    /// What does the build file in `home` hold?
    CheckHome { home: Location, expected: String },
    /// Is `cached` a directory, and what does the build file in it hold?
    CheckCache { cached: Location, expected: String, build_dir: Location },
    /// Can this version be downloaded and unpacked to `out`?
    Download { version: String, out: Location },
    /// The compiler has been found.
    Ready(Kotlin),
    /// There is no compiler to be had.
    Failed(SetupError),
}

/// What a [`Setup`] holds.
pub enum SetupView {
    CheckHome { home: LocationView, expected: Seq<char> },
    CheckCache { cached: LocationView, expected: Seq<char>, build_dir: LocationView },
    Download { version: Seq<char>, out: LocationView },
    Ready(LocationView),
    Failed(SetupErrorView),
}

impl View for Setup {
    type V = SetupView;

    open spec fn view(&self) -> SetupView {
        match self {
            Setup::CheckHome { home, expected } => SetupView::CheckHome {
                home: home@,
                expected: expected@,
            },
            Setup::CheckCache { cached, expected, build_dir } => SetupView::CheckCache {
                cached: cached@,
                expected: expected@,
                build_dir: build_dir@,
            },
            Setup::Download { version, out } => SetupView::Download {
                version: version@,
                out: out@,
            },
            Setup::Ready(kotlin) => SetupView::Ready(kotlin.home@),
            Setup::Failed(e) => SetupView::Failed(e@),
        }
    }
}

/// An answer to what a setup needs to know.
#[derive(Debug)]
pub enum SetupEvent {
    /// What the build file in the home directory holds, if it could be read.
    HomeChecked { build_file: Option<String> },
    /// Whether the cached compiler is a directory, and what the build file in it
    /// holds, if it could be read.
    CacheChecked { is_dir: bool, build_file: Option<String> },
    /// Whether the compiler was downloaded and unpacked.
    Downloaded { ok: bool },
}

/// What a [`SetupEvent`] says.
#[allow(inconsistent_fields)]
pub enum SetupEventView {
    HomeChecked { build_file: Option<Seq<char>> },
    CacheChecked { is_dir: bool, build_file: Option<Seq<char>> },
    Downloaded { ok: bool },
}

impl View for SetupEvent {
    type V = SetupEventView;

    open spec fn view(&self) -> SetupEventView {
        match self {
            SetupEvent::HomeChecked { build_file } => SetupEventView::HomeChecked {
                build_file: text::option_view(*build_file),
            },
            SetupEvent::CacheChecked { is_dir, build_file } => SetupEventView::CacheChecked {
                is_dir: *is_dir,
                build_file: text::option_view(*build_file),
            },
            SetupEvent::Downloaded { ok } => SetupEventView::Downloaded { ok: *ok },
        }
    }
}

/// The key of the task that downloads the compiler.
pub open spec fn kotlin_key() -> Seq<char> {
    "kotlin"@
}

impl SetupView {
    /// How the search for a compiler begins, given a version or none, the home
    /// directory that the environment names or none, and the build directory. A home
    /// directory is used without further ado where no version is given, and is
    /// checked where one is; without a home directory the compiler of the given
    /// version is looked for below the build directory.
    pub open spec fn start(
        version: Option<Seq<char>>,
        home: Option<LocationView>,
        build_dir: LocationView,
    ) -> SetupView {
        match (version, home) {
            (None, Some(home)) => SetupView::Ready(home),
            (None, None) => SetupView::Failed(SetupErrorView::NothingGiven),
            (Some(expected), Some(home)) => SetupView::CheckHome { home, expected },
            (Some(expected), None) => SetupView::CheckCache {
                cached: build_dir.join(CACHE_DIR@),
                expected,
                build_dir,
            },
        }
    }

    /// How the search goes on after an answer. An answer to something else than what
    /// was asked changes nothing.
    pub open spec fn after(self, event: SetupEventView) -> SetupView {
        match (self, event) {
            (
                SetupView::CheckHome { home, expected },
                SetupEventView::HomeChecked { build_file },
            ) => match version::version_verified(build_file, home, expected) {
                Ok(()) => SetupView::Ready(home),
                Err(e) => SetupView::Failed(SetupErrorView::Version(e)),
            },
            (
                SetupView::CheckCache { cached, expected, build_dir },
                SetupEventView::CacheChecked { is_dir, build_file },
            ) => if is_dir && version::version_verified(build_file, cached, expected) is Ok {
                SetupView::Ready(cached)
            } else {
                SetupView::Download { version: expected, out: build_dir.join(UNPACK_DIR@) }
            },
            (SetupView::Download { out, .. }, SetupEventView::Downloaded { ok }) => if ok {
                SetupView::Ready(out)
            } else {
                SetupView::Failed(SetupErrorView::Download)
            },
            _ => self,
        }
    }

    /// What is told of the search after an answer: when a download begins and how it
    /// ends, and nothing else.
    pub open spec fn reports(self, event: SetupEventView, handle: HandleView) -> HandleView {
        match (self, event) {
            (SetupView::CheckCache { .. }, SetupEventView::CacheChecked { .. }) => match self.after(
                event,
            ) {
                SetupView::Download { version, .. } => handle.sent(
                    StatusView::Begin {
                        key: kotlin_key(),
                        msg: "downloading kotlinc "@ + version,
                    },
                ),
                _ => handle,
            },
            (SetupView::Download { version, .. }, SetupEventView::Downloaded { ok }) => handle.sent(
                StatusView::End {
                    key: kotlin_key(),
                    msg: if ok {
                        Some("downloaded kotlinc "@ + version)
                    } else {
                        None
                    },
                },
            ),
            _ => handle,
        }
    }

    /// Whether the search is over.
    pub open spec fn is_over(self) -> bool {
        self is Ready || self is Failed
    }
}

/// A string that may be missing, borrowed.
fn borrowed(file: &Option<String>) -> (r: Option<&str>)
    ensures
        version::file_view(r) == text::option_view(*file),
{
    match file {
        Some(content) => Some(content.as_str()),
        None => None,
    }
}

impl Kotlin {
    /// Begins the search for a compiler of the given version. `kotlin_home` is what
    /// the environment names as the home directory of one.
    pub fn new(
        version: Option<String>,
        kotlin_home: Option<Location>,
        build_dir: &Location,
    ) -> (r: Setup)
        ensures
            r@ == SetupView::start(
                text::option_view(version),
                match kotlin_home {
                    Some(home) => Some(home@),
                    None => None,
                },
                build_dir@,
            ),
    {
        match (version, kotlin_home) {
            (None, Some(home)) => Setup::Ready(Kotlin { home }),
            (None, None) => Setup::Failed(SetupError::NothingGiven),
            (Some(expected), Some(home)) => Setup::CheckHome { home, expected },
            (Some(expected), None) => Setup::CheckCache {
                cached: build_dir.join(CACHE_DIR),
                expected,
                build_dir: build_dir.clone(),
            },
        }
    }
}

impl Setup {
    /// Goes on with the search after an answer, and tells of a download when it
    /// begins and when it ends.
    pub fn step(self, event: SetupEvent, status: &mut StatusHandle) -> (r: Setup)
        ensures
            r@ == self@.after(event@),
            final(status)@ == self@.reports(event@, old(status)@),
    {
        match (self, event) {
            (Setup::CheckHome { home, expected }, SetupEvent::HomeChecked { build_file }) => {
                match version::verify_version(borrowed(&build_file), &home, expected.as_str()) {
                    Ok(()) => Setup::Ready(Kotlin { home }),
                    Err(e) => Setup::Failed(SetupError::Version(e)),
                }
            },
            (
                Setup::CheckCache { cached, expected, build_dir },
                SetupEvent::CacheChecked { is_dir, build_file },
            ) => {
                let known: bool = is_dir && version::verify_version(
                    borrowed(&build_file),
                    &cached,
                    expected.as_str(),
                ).is_ok();
                if known {
                    Setup::Ready(Kotlin { home: cached })
                } else {
                    status.begin(
                        "kotlin".to_owned(),
                        "downloading kotlinc ".to_owned().concat(expected.as_str()),
                    );
                    Setup::Download { version: expected, out: build_dir.join(UNPACK_DIR) }
                }
            },
            (Setup::Download { version, out }, SetupEvent::Downloaded { ok }) => {
                if ok {
                    status.end_log(
                        "kotlin".to_owned(),
                        "downloaded kotlinc ".to_owned().concat(version.as_str()),
                    );
                    Setup::Ready(Kotlin { home: out })
                } else {
                    status.end("kotlin".to_owned());
                    Setup::Failed(SetupError::Download)
                }
            },
            (setup, _) => setup,
        }
    }
}

/// One word of a command line.
#[derive(Debug)]
pub enum Arg {
    /// Plain text.
    Text(String),
    /// A string of the operating system.
    Os(Vec<u8>),
    /// The path of a place.
    Place(Location),
}

/// What an [`Arg`] holds.
pub enum ArgView {
    Text(Seq<char>),
    Os(Seq<u8>),
    Place(LocationView),
}

impl View for Arg {
    type V = ArgView;

    open spec fn view(&self) -> ArgView {
        match self {
            Arg::Text(s) => ArgView::Text(s@),
            Arg::Os(bytes) => ArgView::Os(bytes@),
            Arg::Place(place) => ArgView::Place(place@),
        }
    }
}

/// What the words in `v` hold.
pub open spec fn arg_views(v: Seq<Arg>) -> Seq<ArgView> {
    v.map_values(|a: Arg| a@)
}

/// What the strings in `v` hold.
pub open spec fn byte_views(v: Seq<Vec<u8>>) -> Seq<Seq<u8>> {
    v.map_values(|b: Vec<u8>| b@)
}

/// The paths of a class path, with `separator` between each and the next.
pub open spec fn joined(paths: Seq<Seq<u8>>, separator: Seq<u8>) -> Seq<u8>
    decreases paths.len(),
{
    if paths.len() == 0 {
        Seq::empty()
    } else if paths.len() == 1 {
        paths[0]
    } else {
        joined(paths.drop_last(), separator) + separator + paths.last()
    }
}

/// A call of a tool: the program, the directory that it is called in, its arguments,
/// and the name by which the tool is known.
#[derive(Debug)]
pub struct Invocation {
    pub program: Vec<u8>,
    pub current_dir: Vec<u8>,
    pub args: Vec<Arg>,
    pub tool: &'static str,
}

/// The arguments of a call of the compiler: the preloader is called with the
/// compiler, which is told where its output goes, the class path if there is one,
/// the further arguments and the files, in this order.
pub open spec fn kotlinc_args(
    home: LocationView,
    out: Seq<u8>,
    class_path: Seq<u8>,
    files: Seq<Seq<u8>>,
    extra_args: Seq<Seq<char>>,
) -> Seq<ArgView> {
    seq![
        ArgView::Text("-cp"@),
        ArgView::Place(home.join(PRELOADER_JAR@)),
        ArgView::Text(PRELOADER_CLASS@),
        ArgView::Text("-cp"@),
        ArgView::Place(home.join(COMPILER_JAR@)),
        ArgView::Text(COMPILER_CLASS@),
        ArgView::Text("-d"@),
        ArgView::Os(out),
    ] + (if class_path.len() > 0 {
        seq![ArgView::Text("-cp"@), ArgView::Os(class_path)]
    } else {
        Seq::empty()
    }) + extra_args.map_values(|a: Seq<char>| ArgView::Text(a)) + files.map_values(
        |f: Seq<u8>| ArgView::Os(f),
    )
}

/// Joins the paths of a class path.
fn join_paths(paths: &Vec<Vec<u8>>, separator: &str) -> (r: Vec<u8>)
    ensures
        r@ == joined(byte_views(paths@), separator.spec_bytes()),
{
    let ghost all = byte_views(paths@);
    let between: Vec<u8> = separator.as_bytes_vec();
    let mut r: Vec<u8> = Vec::new();
    let mut i: usize = 0;
    while i < paths.len()
        invariant
            i <= paths@.len(),
            all == byte_views(paths@),
            between@ == separator.spec_bytes(),
            r@ == joined(all.take(i as int), separator.spec_bytes()),
        decreases paths@.len() - i,
    {
        let ghost before = r@;
        let ghost next = all.take(i as int + 1);
        assert(next.drop_last() =~= all.take(i as int));
        assert(next.last() == paths@[i as int]@);
        if i > 0 {
            let mut sep: Vec<u8> = location::copy_bytes(&between);
            r.append(&mut sep);
        }
        let mut path: Vec<u8> = location::copy_bytes(&paths[i]);
        r.append(&mut path);
        assert(r@ =~= joined(next, separator.spec_bytes()));
        i = i + 1;
    }
    assert(all.take(all.len() as int) =~= all);
    r
}

impl Kotlin {
    /// The call that compiles `files` to `out`. `java` is the program that runs Java,
    /// `base` the directory to call it in, and `separator` what stands between two
    /// paths of a class path.
    pub fn kotlinc(
        &self,
        java: &Vec<u8>,
        base: &Vec<u8>,
        out: &Vec<u8>,
        class_path: &Vec<Vec<u8>>,
        separator: &str,
        files: &Vec<Vec<u8>>,
        extra_args: &Vec<String>,
    ) -> (r: Invocation)
        ensures
            r.program@ == java@,
            r.current_dir@ == base@,
            r.tool@ == "kotlinc"@,
            arg_views(r.args@) == kotlinc_args(
                self.home@,
                out@,
                joined(byte_views(class_path@), separator.spec_bytes()),
                byte_views(files@),
                text::views(extra_args@),
            ),
    {
        let mut args: Vec<Arg> = Vec::new();
        args.push(Arg::Text("-cp".to_owned()));
        args.push(Arg::Place(self.home.join(PRELOADER_JAR)));
        args.push(Arg::Text(PRELOADER_CLASS.to_owned()));
        args.push(Arg::Text("-cp".to_owned()));
        args.push(Arg::Place(self.home.join(COMPILER_JAR)));
        args.push(Arg::Text(COMPILER_CLASS.to_owned()));
        args.push(Arg::Text("-d".to_owned()));
        args.push(Arg::Os(location::copy_bytes(out)));
        let cp: Vec<u8> = join_paths(class_path, separator);
        let ghost joined_path = cp@;
        if !cp.is_empty() {
            args.push(Arg::Text("-cp".to_owned()));
            args.push(Arg::Os(cp));
        }
        let ghost head = arg_views(args@);
        assert(head =~= kotlinc_args(self.home@, out@, joined_path, Seq::empty(), Seq::empty()));
        let ghost extra = text::views(extra_args@).map_values(|a: Seq<char>| ArgView::Text(a));
        let mut i: usize = 0;
        while i < extra_args.len()
            invariant
                i <= extra_args@.len(),
                extra == text::views(extra_args@).map_values(|a: Seq<char>| ArgView::Text(a)),
                arg_views(args@) =~= head + extra.take(i as int),
            decreases extra_args@.len() - i,
        {
            let ghost before = arg_views(args@);
            let arg: Arg = Arg::Text(extra_args[i].clone());
            assert(arg@ == extra[i as int]);
            args.push(arg);
            assert(arg_views(args@) =~= before.push(extra[i as int]));
            assert(extra.take(i as int + 1) =~= extra.take(i as int).push(extra[i as int]));
            i = i + 1;
        }
        let ghost sources = byte_views(files@).map_values(|f: Seq<u8>| ArgView::Os(f));
        let ghost front = head + extra;
        i = 0;
        while i < files.len()
            invariant
                i <= files@.len(),
                sources == byte_views(files@).map_values(|f: Seq<u8>| ArgView::Os(f)),
                arg_views(args@) =~= front + sources.take(i as int),
            decreases files@.len() - i,
        {
            let ghost before = arg_views(args@);
            let arg: Arg = Arg::Os(location::copy_bytes(&files[i]));
            assert(arg@ == sources[i as int]);
            args.push(arg);
            assert(arg_views(args@) =~= before.push(sources[i as int]));
            assert(sources.take(i as int + 1) =~= sources.take(i as int).push(sources[i as int]));
            i = i + 1;
        }
        assert(arg_views(args@) =~= kotlinc_args(
            self.home@,
            out@,
            joined_path,
            byte_views(files@),
            text::views(extra_args@),
        ));
        Invocation {
            program: location::copy_bytes(java),
            current_dir: location::copy_bytes(base),
            args,
            tool: "kotlinc",
        }
    }
}

/// The Kotlin compiler as a part of a project: the directory of the sources that it
/// compiles, and the further arguments that it is called with.
#[derive(Debug)]
pub struct KotlinCompiler {
    kotlin: Kotlin,
    source: Vec<u8>,
    args: Vec<String>,
}

/// What a [`KotlinCompiler`] holds.
pub struct CompilerView {
    pub home: LocationView,
    pub source: Seq<u8>,
    pub args: Seq<Seq<char>>,
}

impl View for KotlinCompiler {
    type V = CompilerView;

    closed spec fn view(&self) -> CompilerView {
        CompilerView {
            home: self.kotlin.home@,
            source: self.source@,
            args: text::views(self.args@),
        }
    }
}

impl KotlinCompiler {
    /// The compiler `kotlin` for the sources in the directory `source`.
    pub fn new(kotlin: Kotlin, source: Vec<u8>, args: Vec<String>) -> (r: KotlinCompiler)
        ensures
            r@ == (CompilerView {
                home: kotlin.home@,
                source: source@,
                args: text::views(args@),
            }),
    {
        KotlinCompiler { kotlin, source, args }
    }

    /// The name of the compiler.
    pub fn name(&self) -> (r: &str)
        ensures
            r@ == "kotlinc"@,
    {
        "kotlinc"
    }

    /// The directory of the sources.
    pub fn source(&self) -> (r: &Vec<u8>)
        ensures
            r@ == self@.source,
    {
        &self.source
    }

    /// The call that compiles `files` to `out`, in the project directory `dir`.
    pub fn compile(
        &self,
        java: &Vec<u8>,
        dir: &Vec<u8>,
        out: &Vec<u8>,
        class_path: &Vec<Vec<u8>>,
        separator: &str,
        files: &Vec<Vec<u8>>,
    ) -> (r: Invocation)
        ensures
            r.program@ == java@,
            r.current_dir@ == dir@,
            r.tool@ == "kotlinc"@,
            arg_views(r.args@) == kotlinc_args(
                self@.home,
                out@,
                joined(byte_views(class_path@), separator.spec_bytes()),
                byte_views(files@),
                self@.args,
            ),
    {
        self.kotlin.kotlinc(java, dir, out, class_path, separator, files, &self.args)
    }
}

/// Whether an answer is one to what the search needs to know.
pub open spec fn answers(setup: SetupView, event: SetupEventView) -> bool {
    match setup {
        SetupView::CheckHome { .. } => event is HomeChecked,
        SetupView::CheckCache { .. } => event is CacheChecked,
        SetupView::Download { .. } => event is Downloaded,
        _ => false,
    }
}

impl SetupView {
    /// How the search stands after all of `events`, in order.
    pub open spec fn after_all(self, events: Seq<SetupEventView>) -> SetupView
        decreases events.len(),
    {
        if events.len() == 0 {
            self
        } else {
            self.after_all(events.drop_last()).after(events.last())
        }
    }

    /// What has been told of the search after all of `events`, in order.
    pub open spec fn all_reports(
        self,
        events: Seq<SetupEventView>,
        handle: HandleView,
    ) -> HandleView
        decreases events.len(),
    {
        if events.len() == 0 {
            handle
        } else {
            self.after_all(events.drop_last()).reports(
                events.last(),
                self.all_reports(events.drop_last(), handle),
            )
        }
    }
}

/// A search that is over stays as it is, and nothing more is told of it.
pub proof fn finished_search_stays(setup: SetupView, event: SetupEventView, handle: HandleView)
    requires
        setup.is_over(),
    ensures
        setup.after(event) == setup,
        setup.reports(event, handle) == handle,
{
}

/// Two answers are enough: a search that is not over at once is over after the first
/// answer to what it asks, or after the second.
pub proof fn search_ends_after_two_answers(
    version: Option<Seq<char>>,
    home: Option<LocationView>,
    build_dir: LocationView,
    first: SetupEventView,
    second: SetupEventView,
)
    ensures
        ({
            let begun = SetupView::start(version, home, build_dir);
            let once = begun.after(first);
            let twice = once.after(second);
            begun.is_over() || (answers(begun, first) ==> once.is_over() || (answers(once, second)
                ==> twice.is_over()))
        }),
{
}

/// Where the environment names a home directory, no compiler is ever downloaded,
/// nothing is told, and no other directory is used.
pub proof fn given_home_is_the_only_one(
    version: Option<Seq<char>>,
    home: LocationView,
    build_dir: LocationView,
    events: Seq<SetupEventView>,
    handle: HandleView,
)
    ensures
        ({
            let now = SetupView::start(version, Some(home), build_dir).after_all(events);
            &&& !(now is Download)
            &&& !(now is CheckCache)
            &&& now matches SetupView::Ready(found) ==> found == home
        }),
        SetupView::start(version, Some(home), build_dir).all_reports(events, handle) == handle,
    decreases events.len(),
{
    given_home_states(version, home, build_dir, events);
    if events.len() > 0 {
        given_home_states(version, home, build_dir, events.drop_last());
        given_home_is_the_only_one(version, home, build_dir, events.drop_last(), handle);
    }
}

proof fn given_home_states(
    version: Option<Seq<char>>,
    home: LocationView,
    build_dir: LocationView,
    events: Seq<SetupEventView>,
)
    ensures
        ({
            let begun = SetupView::start(version, Some(home), build_dir);
            let now = begun.after_all(events);
            now == begun || now == SetupView::Ready(home) || now is Failed
        }),
    decreases events.len(),
{
    if events.len() > 0 {
        given_home_states(version, home, build_dir, events.drop_last());
    }
}

/// A version that was asked for is what one gets: a compiler that was found rather
/// than downloaded has a build file that tells that version.
pub proof fn found_compiler_is_of_the_version(setup: SetupView, event: SetupEventView)
    requires
        setup is CheckHome || setup is CheckCache,
        setup.after(event) is Ready,
    ensures
        match (setup, event) {
            (
                SetupView::CheckHome { home, expected },
                SetupEventView::HomeChecked { build_file },
            ) => setup.after(event) == SetupView::Ready(home) && version::version_told(build_file)
                == Some(expected),
            (
                SetupView::CheckCache { cached, expected, .. },
                SetupEventView::CacheChecked { is_dir, build_file },
            ) => setup.after(event) == SetupView::Ready(cached) && is_dir && version::version_told(
                build_file,
            ) == Some(expected),
            _ => false,
        },
{
}

/// A version with a dash or white space in it is never found: a home directory is
/// refused for it, and without one it is downloaded whatever the cache holds.
pub proof fn dashed_version_is_never_found(
    expected: Seq<char>,
    home: Option<LocationView>,
    build_dir: LocationView,
    event: SetupEventView,
    at: int,
)
    requires
        0 <= at < expected.len(),
        expected[at] == '-' || text::is_white(expected[at]),
        answers(SetupView::start(Some(expected), home, build_dir), event),
    ensures
        match SetupView::start(Some(expected), home, build_dir).after(event) {
            SetupView::Failed(SetupErrorView::Version(_)) => home is Some,
            SetupView::Download { version, out } => home is None && version == expected && out
                == build_dir.join(UNPACK_DIR@),
            _ => false,
        },
{
    match (home, event) {
        (Some(home), SetupEventView::HomeChecked { build_file }) => {
            version::dashed_version_is_never_verified(build_file, home, expected, at);
        },
        (None, SetupEventView::CacheChecked { build_file, .. }) => {
            version::dashed_version_is_never_verified(
                build_file,
                build_dir.join(CACHE_DIR@),
                expected,
                at,
            );
        },
        _ => {},
    }
}

/// What is told of a download is a task of its own: it begins when the download does
/// and ends when the download is done, whether it went well or not. Of a search that
/// downloads nothing, nothing is told.
pub proof fn download_is_told_as_one_task(
    expected: Seq<char>,
    build_dir: LocationView,
    is_dir: bool,
    build_file: Option<Seq<char>>,
    ok: bool,
    handle: HandleView,
)
    requires
        handle.open,
    ensures
        ({
            let begun = SetupView::start(Some(expected), None, build_dir);
            let checked = SetupEventView::CacheChecked { is_dir, build_file };
            let done = SetupEventView::Downloaded { ok };
            let told = begun.after(checked).reports(done, begun.reports(checked, handle));
            if begun.after(checked) is Download {
                told.pending == handle.pending + seq![
                    StatusView::Begin { key: kotlin_key(), msg: "downloading kotlinc "@ + expected },
                    StatusView::End {
                        key: kotlin_key(),
                        msg: if ok {
                            Some("downloaded kotlinc "@ + expected)
                        } else {
                            None
                        },
                    },
                ]
            } else {
                told == handle
            }
        }),
{
    let begun = SetupView::start(Some(expected), None, build_dir);
    let checked = SetupEventView::CacheChecked { is_dir, build_file };
    let done = SetupEventView::Downloaded { ok };
    let told = begun.after(checked).reports(done, begun.reports(checked, handle));
    if begun.after(checked) is Download {
        assert(told.pending =~= handle.pending + seq![
            StatusView::Begin { key: kotlin_key(), msg: "downloading kotlinc "@ + expected },
            StatusView::End {
                key: kotlin_key(),
                msg: if ok {
                    Some("downloaded kotlinc "@ + expected)
                } else {
                    None
                },
            },
        ]);
    }
}

/// A compiler that was downloaded is found again: a later search for the same version
/// in the same build directory, to which the build file there tells that version, ends
/// at once with the place that the download went to, downloads nothing and tells
/// nothing.
pub proof fn downloaded_compiler_is_found_again(
    expected: Seq<char>,
    build_dir: LocationView,
    first: SetupEventView,
    build_file: Option<Seq<char>>,
    handle: HandleView,
)
    requires
        SetupView::start(Some(expected), None, build_dir).after(first) is Download,
        version::version_told(build_file) == Some(expected),
    ensures
        ({
            let begun = SetupView::start(Some(expected), None, build_dir);
            let downloaded = begun.after(first).after(SetupEventView::Downloaded { ok: true });
            let again = SetupEventView::CacheChecked { is_dir: true, build_file };
            &&& downloaded is Ready
            &&& begun.after(again) == SetupView::Ready(build_dir.join(CACHE_DIR@))
            &&& begun.after(again)->Ready_0.same_place(downloaded->Ready_0)
            &&& begun.reports(again, handle) == handle
        }),
{
    let cached = build_dir.join(CACHE_DIR@);
    let out = build_dir.join(UNPACK_DIR@);
    reveal_strlit("kotlin");
    reveal_strlit("kotlin/");
    assert(UNPACK_DIR@ =~= CACHE_DIR@.push('/'));
    assert(location::without_slash(UNPACK_DIR@) =~= CACHE_DIR@);
    assert(cached.same_place(out));
}

/// A class path is empty, and is left out of the call, exactly where it is made of no
/// path or of one path that is empty.
pub proof fn empty_class_path(paths: Seq<Seq<u8>>, separator: Seq<u8>)
    requires
        separator.len() > 0,
    ensures
        joined(paths, separator).len() == 0 <==> paths.len() == 0 || paths.len() == 1
            && paths[0].len() == 0,
{
}

/// The further arguments and the files stand at the end of a call, complete and in
/// order, the files last; before them the class path makes two arguments, or none
/// where it is empty.
pub proof fn call_ends_with_arguments_and_files(
    home: LocationView,
    out: Seq<u8>,
    class_path: Seq<u8>,
    files: Seq<Seq<u8>>,
    extra_args: Seq<Seq<char>>,
)
    ensures
        ({
            let args = kotlinc_args(home, out, class_path, files, extra_args);
            let fixed = if class_path.len() > 0 {
                10int
            } else {
                8int
            };
            &&& args.len() == fixed + extra_args.len() + files.len()
            &&& forall|i: int|
                0 <= i < extra_args.len() ==> args[fixed + i] == ArgView::Text(
                    #[trigger] extra_args[i],
                )
            &&& forall|i: int|
                0 <= i < files.len() ==> args[fixed + extra_args.len() + i] == ArgView::Os(
                    #[trigger] files[i],
                )
        }),
{
}

/// A given home of the wanted version is used: where the build file in it tells that
/// version, however the file goes on, the search ends there. Where the file tells
/// another version or none, the search fails, with an error that says so.
pub proof fn home_is_used_if_it_is_of_the_version(
    home: LocationView,
    build_dir: LocationView,
    expected: Seq<char>,
    build_file: Option<Seq<char>>,
)
    ensures
        ({
            let asked = SetupView::start(Some(expected), Some(home), build_dir);
            let answered = asked.after(SetupEventView::HomeChecked { build_file });
            &&& asked == (SetupView::CheckHome { home, expected })
            &&& answered == SetupView::Ready(home) <==> version::version_told(build_file) == Some(
                expected,
            )
            &&& version::version_told(build_file) matches Some(actual) ==> (actual != expected
                ==> answered == SetupView::Failed(
                SetupErrorView::Version(VersionErrorView::Mismatch { expected, actual, home }),
            ))
            &&& version::version_told(build_file) is None ==> answered == SetupView::Failed(
                SetupErrorView::Version(VersionErrorView::Unknown { home }),
            )
        }),
{
}

/// A given home whose build file begins with the wanted version, after white space or
/// none and up to white space, a dash or the end of the file, is used.
pub proof fn home_with_a_standing_version_is_used(
    home: LocationView,
    expected: Seq<char>,
    content: Seq<char>,
    start: int,
)
    requires
        version::stands_at(content, expected, start),
    ensures
        (SetupView::CheckHome { home, expected }).after(
            SetupEventView::HomeChecked { build_file: Some(content) },
        ) == SetupView::Ready(home),
{
    version::standing_version_is_told(content, expected, start);
}

/// Without a version that is asked for, a given home is used as it is, and there is
/// nothing to search for where none is given either.
pub proof fn any_version_of_a_given_home_will_do(home: LocationView, build_dir: LocationView)
    ensures
        SetupView::start(None, Some(home), build_dir) == SetupView::Ready(home),
        SetupView::start(None, None, build_dir) == SetupView::Failed(SetupErrorView::NothingGiven),
{
}

/// Without a given home, the directory `kotlin` below the build directory is used if it
/// is a directory whose build file tells the wanted version. If not, that version is
/// downloaded into `kotlin/` below the build directory, which is used if the download
/// goes well; nothing is to be had if it does not.
pub proof fn cache_comes_before_a_download(
    build_dir: LocationView,
    expected: Seq<char>,
    is_dir: bool,
    build_file: Option<Seq<char>>,
    ok: bool,
)
    ensures
        ({
            let cached = LocationView {
                base: build_dir.base,
                below: build_dir.below.push("kotlin"@),
            };
            let out = LocationView { base: build_dir.base, below: build_dir.below.push("kotlin/"@) };
            let asked = SetupView::start(Some(expected), None, build_dir);
            let answered = asked.after(SetupEventView::CacheChecked { is_dir, build_file });
            let done = answered.after(SetupEventView::Downloaded { ok });
            let known = is_dir && version::version_told(build_file) == Some(expected);
            &&& asked == (SetupView::CheckCache { cached, expected, build_dir })
            &&& known ==> answered == SetupView::Ready(cached)
            &&& !known ==> answered == (SetupView::Download { version: expected, out })
            &&& !known && ok ==> done == SetupView::Ready(out)
            &&& !known && !ok ==> done == SetupView::Failed(SetupErrorView::Download)
        }),
{
}

/// An answer to something else than what was asked changes nothing, and nothing is told
/// of it. Nothing is ever told of checking a home directory, and a download is told under
/// the key `kotlin`.
pub proof fn only_an_answer_counts(setup: SetupView, event: SetupEventView, handle: HandleView)
    ensures
        ({
            let answered = (setup is CheckHome && event is HomeChecked) || (setup is CheckCache
                && event is CacheChecked) || (setup is Download && event is Downloaded);
            !answered ==> setup.after(event) == setup && setup.reports(event, handle) == handle
        }),
        setup is CheckHome ==> setup.reports(event, handle) == handle,
        setup matches SetupView::Download { version, .. } ==> (
        event matches SetupEventView::Downloaded { ok } ==> setup.reports(event, handle)
            == handle.sent(
            StatusView::End {
                key: "kotlin"@,
                msg: if ok {
                    Some("downloaded kotlinc "@ + version)
                } else {
                    None
                },
            },
        )),
        setup is CheckCache && event is CacheChecked ==> (match setup.after(event) {
            SetupView::Download { version, .. } => setup.reports(event, handle) == handle.sent(
                StatusView::Begin { key: "kotlin"@, msg: "downloading kotlinc "@ + version },
            ),
            _ => setup.reports(event, handle) == handle,
        }),
{
}

/// What is said of a search that failed, by itself or by what was found at `place`.
pub proof fn message_tells_why_a_search_failed(error: VersionErrorView, place: Seq<char>)
    ensures
        SetupErrorView::NothingGiven.message(place) == Some(
            "kotlin version must be set in the manifest or KOTLIN_HOME must be set"@,
        ),
        SetupErrorView::Version(error).message(place) == Some(error.message(place)),
        SetupErrorView::Download.message(place) is None,
{
}

/// A call begins with the preloader and the compiler, which both stand in the home of
/// the compiler, wherever that is: the preloader's library and class, the compiler's
/// library and class, and where the output goes. The class path comes next, if it holds
/// anything.
pub proof fn call_begins_in_the_home_of_the_compiler(
    home: LocationView,
    out: Seq<u8>,
    class_path: Seq<u8>,
    files: Seq<Seq<u8>>,
    extra_args: Seq<Seq<char>>,
)
    ensures
        ({
            let args = kotlinc_args(home, out, class_path, files, extra_args);
            let preloader = LocationView {
                base: home.base,
                below: home.below.push("lib/kotlin-preloader.jar"@),
            };
            let compiler = LocationView {
                base: home.base,
                below: home.below.push("lib/kotlin-compiler.jar"@),
            };
            &&& args.len() >= 8
            &&& args[0] == ArgView::Text("-cp"@)
            &&& args[1] == ArgView::Place(preloader)
            &&& args[2] == ArgView::Text("org.jetbrains.kotlin.preloading.Preloader"@)
            &&& args[3] == ArgView::Text("-cp"@)
            &&& args[4] == ArgView::Place(compiler)
            &&& args[5] == ArgView::Text("org.jetbrains.kotlin.cli.jvm.K2JVMCompiler"@)
            &&& args[6] == ArgView::Text("-d"@)
            &&& args[7] == ArgView::Os(out)
            &&& class_path.len() > 0 ==> args[8] == ArgView::Text("-cp"@) && args[9]
                == ArgView::Os(class_path)
        }),
{
}

/// A class path holds all its paths, in order and as they are, with the separator
/// between each and the next: two class paths joined are the class path of all their
/// paths, and one path is a class path by itself.
pub proof fn class_path_holds_every_path(
    a: Seq<Seq<u8>>,
    b: Seq<Seq<u8>>,
    path: Seq<u8>,
    separator: Seq<u8>,
)
    ensures
        joined(Seq::empty(), separator).len() == 0,
        joined(seq![path], separator) == path,
        a.len() > 0 && b.len() > 0 ==> joined(a + b, separator) == joined(a, separator) + separator
            + joined(b, separator),
    decreases b.len(),
{
    if a.len() > 0 && b.len() > 0 {
        let front = b.drop_last();
        assert((a + b).drop_last() =~= a + front);
        assert((a + b).last() == b.last());
        if b.len() == 1 {
            assert(a + front =~= a);
            assert(joined(b, separator) == b.last());
        } else {
            class_path_holds_every_path(a, front, path, separator);
        }
        assert(joined(a + b, separator) =~= joined(a, separator) + separator + joined(
            b,
            separator,
        ));
    }
}

/// What a search and a call are made of is seen whole, each part in its own place.
pub proof fn calls_are_seen_whole(
    args: Seq<Arg>,
    paths: Seq<Vec<u8>>,
    arg: Arg,
    setup: Setup,
    event: SetupEvent,
)
    ensures
        arg_views(args).len() == args.len(),
        forall|i: int| 0 <= i < args.len() ==> (#[trigger] arg_views(args)[i]) == args[i]@,
        byte_views(paths).len() == paths.len(),
        forall|i: int| 0 <= i < paths.len() ==> (#[trigger] byte_views(paths)[i]) == paths[i]@,
        match arg {
            Arg::Text(s) => arg@ == ArgView::Text(s@),
            Arg::Os(bytes) => arg@ == ArgView::Os(bytes@),
            Arg::Place(place) => arg@ == ArgView::Place(place@),
        },
        match setup {
            Setup::CheckHome { home, expected } => setup@ == (SetupView::CheckHome {
                home: home@,
                expected: expected@,
            }),
            Setup::CheckCache { cached, expected, build_dir } => setup@ == (SetupView::CheckCache {
                cached: cached@,
                expected: expected@,
                build_dir: build_dir@,
            }),
            Setup::Download { version, out } => setup@ == (SetupView::Download {
                version: version@,
                out: out@,
            }),
            Setup::Ready(kotlin) => setup@ == SetupView::Ready(kotlin.home@),
            Setup::Failed(e) => setup@ == SetupView::Failed(e@),
        },
        match event {
            SetupEvent::HomeChecked { build_file } => event@ == (SetupEventView::HomeChecked {
                build_file: text::option_view(build_file),
            }),
            SetupEvent::CacheChecked { is_dir, build_file } => event@ == (
            SetupEventView::CacheChecked { is_dir, build_file: text::option_view(build_file) }),
            SetupEvent::Downloaded { ok } => event@ == (SetupEventView::Downloaded { ok }),
        },
{
}

/// Why a search failed is seen whole.
pub proof fn search_errors_are_seen_whole(error: SetupError)
    ensures
        match error {
            SetupError::NothingGiven => error@ == SetupErrorView::NothingGiven,
            SetupError::Version(e) => error@ == SetupErrorView::Version(e@),
            SetupError::Download => error@ == SetupErrorView::Download,
        },
{
}

} // verus!
