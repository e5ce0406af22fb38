//! The archive of a Kotlin compiler: where it is fetched from, and which of its
//! entries are unpacked to which places.

use vstd::prelude::*;
use vstd::string::*;

use crate::location::{Location, LocationView};
use crate::text;
use crate::version::BUILD_FILE;
use std::io::Cursor;
use std::io::Read;
use zip::result::ZipError;
use zip::ZipArchive;

verus! {

/// `std::io::Cursor`, a reader of bytes in memory.
#[verifier::external_type_specification]
#[verifier::external_body]
#[verifier::reject_recursive_types(T)]
pub struct ExCursor<T>(std::io::Cursor<T>);

/// `std::io::Error`.
#[verifier::external_type_specification]
#[verifier::external_body]
pub struct ExIoError(std::io::Error);

/// `zip::ZipArchive`, an archive that is read from `R`.
#[verifier::external_type_specification]
#[verifier::external_body]
#[verifier::reject_recursive_types(R)]
pub struct ExZipArchive<R>(zip::ZipArchive<R>);

/// `zip::result::ZipError`.
#[verifier::external_type_specification]
#[verifier::external_body]
pub struct ExZipError(zip::result::ZipError);

/// The bytes that an archive was opened on.
pub uninterp spec fn zip_source(zip: ZipArchive<Cursor<Vec<u8>>>) -> Seq<u8>;

/// Whether `ZipArchive::new` opens these bytes as an archive.
pub uninterp spec fn zip_opens(bytes: Seq<u8>) -> bool;

/// The number of entries that `ZipArchive::len` tells of these bytes.
pub uninterp spec fn zip_len(bytes: Seq<u8>) -> nat;

/// What `ZipArchive::by_index` finds at a position in these bytes: what `ZipFile::name`
/// and `ZipFile::is_dir` tell of the entry there, the name being missing where it
/// cannot be decoded. `None` where there is no entry that can be read.
pub uninterp spec fn zip_entry(bytes: Seq<u8>, i: int) -> Option<(Option<Seq<char>>, bool)>;

/// What `ZipFile::enclosed_name` makes of an entry's name: the names that lead to the
/// entry, unless they would lead out of the directory that the archive is unpacked to.
/// Some systems take a name in the middle of a path for a drive; this is the path on
/// the systems that do not.
pub uninterp spec fn enclosed(name: Seq<char>) -> Option<Seq<Seq<char>>>;

/// What reading the entry at a position to its end gives, unless that fails.
pub uninterp spec fn zip_data(bytes: Seq<u8>, i: int) -> Option<Seq<u8>>;

/// An entry of an archive.
#[derive(Debug)]
pub struct Entry {
    /// The name of the entry, if it can be decoded.
    pub name: Option<String>,
    /// The names that lead to the entry, if they are safe to follow.
    pub path: Option<Vec<String>>,
    /// Whether the entry is a directory.
    pub is_dir: bool,
}

/// What an [`Entry`] holds.
pub struct EntryView {
    pub name: Option<Seq<char>>,
    pub path: Option<Seq<Seq<char>>>,
    pub is_dir: bool,
}

impl View for Entry {
    type V = EntryView;

    open spec fn view(&self) -> EntryView {
        EntryView {
            name: text::option_view(self.name),
            path: match self.path {
                Some(names) => Some(text::views(names@)),
                None => None,
            },
            is_dir: self.is_dir,
        }
    }
}

/// What an entry holds, where it could be read.
pub open spec fn entry_view(entry: Option<Entry>) -> Option<EntryView> {
    match entry {
        Some(e) => Some(e@),
        None => None,
    }
}

/// What the entries in `v` hold.
pub open spec fn entry_views(v: Seq<Option<Entry>>) -> Seq<Option<EntryView>> {
    v.map_values(|e: Option<Entry>| entry_view(e))
}

/// Whether a name stands for one step down: it is no way back up, and is not several
/// steps in one.
pub open spec fn plain_name(name: Seq<char>) -> bool {
    &&& name.len() > 0
    &&& name != "."@
    &&& name != ".."@
    &&& !name.contains('/')
    &&& !name.contains('\\')
}

/// Whether a path can be followed: it is made of plain names, or begins with a drive
/// and is recognised by the colon there.
pub open spec fn safe_path(path: Seq<Seq<char>>) -> bool {
    ||| path.len() > 0 && path[0].contains(':')
    ||| forall|k: int| 0 <= k < path.len() ==> plain_name(#[trigger] path[k])
}

/// Whether an entry's path, if it has one, can be followed.
pub open spec fn safe_entry(entry: Option<EntryView>) -> bool {
    match entry {
        Some(EntryView { path: Some(path), .. }) => safe_path(path),
        _ => true,
    }
}

/// Whether a part of `name` that begins at position `k` looks like a drive: it begins
/// with a letter and a colon.
pub open spec fn drive_at(name: Seq<char>, k: int) -> bool {
    &&& 0 <= k < name.len() - 1
    &&& 'a' <= name[k] <= 'z' || 'A' <= name[k] <= 'Z'
    &&& name[k + 1] == ':'
    &&& k == 0 || name[k - 1] == '/' || name[k - 1] == '\\'
}

/// Whether any part of `name` looks like a drive.
pub open spec fn names_a_drive(name: Seq<char>) -> bool {
    exists|k: int| #[trigger] drive_at(name, k)
}

/// The given names, with a slash between each and the next.
pub open spec fn slashed(names: Seq<Seq<char>>) -> Seq<char>
    decreases names.len(),
{
    if names.len() == 0 {
        Seq::empty()
    } else if names.len() == 1 {
        names[0]
    } else {
        slashed(names.drop_last()) + seq!['/'] + names.last()
    }
}

/// Whether `name` spells the given names in the usual way: all of them are plain,
/// without a colon or a null character, and slashes stand between them; one more slash
/// may stand at the end.
pub open spec fn spells(name: Seq<char>, names: Seq<Seq<char>>) -> bool {
    &&& names.len() > 0
    &&& forall|k: int|
        0 <= k < names.len() ==> plain_name(#[trigger] names[k]) && !names[k].contains(':')
            && !names[k].contains('\u{0}')
    &&& name == slashed(names) || name == slashed(names).push('/')
}

/// Whether `path` is what an entry's name leads to. There is a path exactly where the
/// name can be decoded and does not lead out. What is made of a part that looks like a
/// drive is up to the system; without one, the path is the same everywhere.
pub open spec fn tells_path(name: Option<Seq<char>>, path: Option<Seq<Seq<char>>>) -> bool {
    match name {
        Some(name) => {
            &&& path is Some <==> enclosed(name) is Some
            &&& !names_a_drive(name) ==> path == enclosed(name)
            &&& forall|names: Seq<Seq<char>>| #[trigger]
                spells(name, names) ==> path == Some(names)
        },
        None => path is None,
    }
}

/// Whether `entry` tells what stands at position `i` of an archive.
pub open spec fn tells_entry(bytes: Seq<u8>, i: int, entry: Option<EntryView>) -> bool {
    match (entry, zip_entry(bytes, i)) {
        (Some(e), Some((name, is_dir))) => {
            &&& e.name == name
            &&& e.is_dir == is_dir
            &&& tells_path(name, e.path)
        },
        (None, None) => true,
        _ => false,
    }
}

/// Whether `entries` tell what stands in an archive, position by position.
pub open spec fn tells_entries(bytes: Seq<u8>, entries: Seq<Option<EntryView>>) -> bool {
    &&& entries.len() == zip_len(bytes)
    &&& forall|i: int| 0 <= i < entries.len() ==> tells_entry(bytes, i, #[trigger] entries[i])
}

/// What stands at position `i` of an archive, on a system that sees no drive in the
/// middle of a path.
pub open spec fn named_entry(bytes: Seq<u8>, i: int) -> Option<EntryView> {
    match zip_entry(bytes, i) {
        Some((name, is_dir)) => Some(
            EntryView {
                name,
                path: match name {
                    Some(n) => enclosed(n),
                    None => None,
                },
                is_dir,
            },
        ),
        None => None,
    }
}

/// What stands in an archive, on a system that sees no drive in the middle of a path.
pub open spec fn named_entries(bytes: Seq<u8>) -> Seq<Option<EntryView>> {
    Seq::new(zip_len(bytes), |i: int| named_entry(bytes, i))
}

/// Whether the name of the entry at position `i` of an archive has a part that looks
/// like a drive.
pub open spec fn drive_in(bytes: Seq<u8>, i: int) -> bool {
    zip_entry(bytes, i) matches Some((Some(name), _)) && names_a_drive(name)
}

/// Whether no name in an archive has a part that looks like a drive.
pub open spec fn no_drives(bytes: Seq<u8>) -> bool {
    forall|i: int| 0 <= i < zip_len(bytes) ==> !#[trigger] drive_in(bytes, i)
}

/// `ZipArchive::new` of zip, on bytes in memory: whether it succeeds is a function of
/// the bytes, and the archive is read from them. Nothing is claimed of the error.
#[verifier::external_body]
fn open_zip(bytes: Vec<u8>) -> (r: Result<ZipArchive<Cursor<Vec<u8>>>, ZipError>)
    ensures
        r is Ok <==> zip_opens(bytes@),
        r matches Ok(zip) ==> zip_source(zip) == bytes@,
{
    ZipArchive::new(Cursor::new(bytes))
}

/// `ZipArchive::len` of zip: the number of entries, which is a function of the bytes.
#[verifier::external_body]
fn count_entries(zip: &ZipArchive<Cursor<Vec<u8>>>) -> (r: usize)
    ensures
        r == zip_len(zip_source(*zip)),
{
    zip.len()
}

/// `ZipArchive::by_index` of zip, with `name`, `enclosed_name` and `is_dir` of what it
/// finds. Whether an entry can be read, its name, and whether it is a directory are
/// functions of the bytes and the position. `enclosed_name` gives a path exactly where
/// the name can be decoded and leads nowhere else, which depends on the name alone. The
/// path is the same on every system, unless a part of the name looks like a drive: a
/// system that has drives begins the path anew there, with the drive. Apart from a path
/// that begins with a drive, paths are made of plain names. A name that is spelled in
/// the usual way leads to the names that it spells. The archive stays what it is.
#[verifier::external_body]
fn entry_at(zip: &mut ZipArchive<Cursor<Vec<u8>>>, i: usize) -> (r: Option<Entry>)
    ensures
        zip_source(*final(zip)) == zip_source(*old(zip)),
        r is Some <==> zip_entry(zip_source(*old(zip)), i as int) is Some,
        r matches Some(e) ==> e@.name == (zip_entry(zip_source(*old(zip)), i as int)->0).0,
        r matches Some(e) ==> e@.is_dir == (zip_entry(zip_source(*old(zip)), i as int)->0).1,
        r matches Some(e) ==> (match (zip_entry(zip_source(*old(zip)), i as int)->0).0 {
            Some(name) => {
                &&& e@.path is Some <==> enclosed(name) is Some
                &&& !names_a_drive(name) ==> e@.path == enclosed(name)
                &&& forall|names: Seq<Seq<char>>| #[trigger]
                    spells(name, names) ==> e@.path == Some(names)
            },
            None => e@.path is None,
        }),
        r matches Some(e) ==> (e@.path matches Some(path) ==> safe_path(path)),
{
    let file = zip.by_index(i).ok()?;
    let name = file.name().ok().map(|n| n.into_owned());
    let path = file.enclosed_name().map(
        |p| p.iter().map(|name| name.to_string_lossy().into_owned()).collect(),
    );
    Some(Entry { name, path, is_dir: file.is_dir() })
}

/// `Read::read_to_end` on the entry that `ZipArchive::by_index` of zip finds: whether
/// it succeeds, and the data it gives then, are functions of the bytes and the
/// position. Where it fails, the error comes with what was read before; nothing is
/// claimed of either, since how much is read at a time is up to the allocator. The
/// archive stays what it is.
#[verifier::external_body]
fn data_at(zip: &mut ZipArchive<Cursor<Vec<u8>>>, i: usize) -> (r: (
    Vec<u8>,
    Option<std::io::Error>,
))
    ensures
        zip_source(*final(zip)) == zip_source(*old(zip)),
        match r.1 {
            None => zip_data(zip_source(*old(zip)), i as int) == Some(r.0@),
            Some(_) => zip_data(zip_source(*old(zip)), i as int) is None,
        },
{
    let mut data = Vec::new();
    let error = match zip.by_index(i) {
        Ok(mut file) => file.read_to_end(&mut data).err(),
        Err(error) => Some(error.into()),
    };
    (data, error)
}

/// The address that the archive of a version is fetched from.
pub open spec fn url_of(version: Seq<char>) -> Seq<char> {
    "https://github.com/JetBrains/kotlin/releases/download/v"@ + version + "/kotlin-compiler-"@
        + version + ".zip"@
}

/// The address that the archive of a version is fetched from.
pub fn download_url(version: &str) -> (r: String)
    ensures
        r@ == url_of(version@),
{
    "https://github.com/JetBrains/kotlin/releases/download/v".to_owned().concat(version).concat(
        "/kotlin-compiler-",
    ).concat(version).concat(".zip")
}

/// How many redirects are followed when an archive is fetched.
pub const REDIRECT_LIMIT: usize = 1;

/// The name by which the tool, being of the given version, introduces itself to a
/// server.
pub fn user_agent(tool_version: &str) -> (r: String)
    ensures
        r@ == "borneo/"@ + tool_version@,
{
    "borneo/".to_owned().concat(tool_version)
}

/// The directory below the build directory that the compiler is unpacked to.
pub const UNPACK_DIR: &'static str = "kotlin/";

/// A stage of the download of a compiler at which it can fail.
#[derive(Clone, Copy, Debug, PartialEq, Eq, Structural)]
pub enum DownloadFailure {
    Fetch,
    InvalidArchive,
    CacheDirectory,
    IllegalName,
    CreateFile,
    CopyFile,
}

impl DownloadFailure {
    /// The message for a failure at this stage.
    pub open spec fn says(self) -> Seq<char> {
        match self {
            DownloadFailure::Fetch => "failed to download kotlin compiler"@,
            DownloadFailure::InvalidArchive =>
                "github returned invalid ZIP file for kotlin compiler"@,
            DownloadFailure::CacheDirectory => "failed to create kotlin cache directory"@,
            DownloadFailure::IllegalName => "kotlin compiler contains illegal file names"@,
            DownloadFailure::CreateFile => "failed to create destination file"@,
            DownloadFailure::CopyFile => "failed to copy to destination file"@,
        }
    }

    /// The message for a failure at this stage.
    pub fn message(self) -> (r: String)
        ensures
            r@ == self.says(),
    {
        match self {
            DownloadFailure::Fetch => "failed to download kotlin compiler".to_owned(),
            DownloadFailure::InvalidArchive => {
                "github returned invalid ZIP file for kotlin compiler".to_owned()
            },
            DownloadFailure::CacheDirectory => "failed to create kotlin cache directory".to_owned(),
            DownloadFailure::IllegalName => {
                "kotlin compiler contains illegal file names".to_owned()
            },
            DownloadFailure::CreateFile => "failed to create destination file".to_owned(),
            DownloadFailure::CopyFile => "failed to copy to destination file".to_owned(),
        }
    }
}

/// A failure at a stage of a download, with what caused it.
#[derive(Debug)]
pub struct Failed<C> {
    pub stage: DownloadFailure,
    pub cause: C,
}

/// The part of an entry's data that was read before a failure.
#[derive(Debug)]
pub struct Partial {
    pub read: Vec<u8>,
    pub failed: Failed<std::io::Error>,
}

/// Where an entry with the given path is unpacked to. Of the directory `kotlinc` in
/// the archive, the directory `lib` keeps its place, and every file called
/// `build.txt` becomes the build file of the compiler; nothing else is unpacked.
pub open spec fn destination_of(path: Seq<Seq<char>>, out: LocationView) -> Option<LocationView> {
    let inner = path.skip(1);
    if path.len() < 2 || path[0] != "kotlinc"@ {
        None
    } else if inner.last() == BUILD_FILE@ {
        Some(out.join(BUILD_FILE@))
    } else if inner[0] == "lib"@ {
        Some(out.join_all(inner))
    } else {
        None
    }
}

/// Where an entry with the given path is unpacked to, if it is.
pub fn destination(path: &Vec<String>, out: &Location) -> (r: Option<Location>)
    ensures
        match r {
            Some(place) => destination_of(text::views(path@), out@) == Some(place@),
            None => destination_of(text::views(path@), out@) is None,
        },
{
    let ghost names = text::views(path@);
    if path.len() < 2 || path[0] != "kotlinc".to_owned() {
        return None;
    }
    assert(names.skip(1)[0] == path@[1]@);
    assert(names.skip(1).last() == path@[path@.len() - 1]@);
    if path[path.len() - 1] == BUILD_FILE.to_owned() {
        Some(out.join(BUILD_FILE))
    } else if path[1] == "lib".to_owned() {
        Some(out.join_from(path, 1))
    } else {
        None
    }
}

/// A thing to do when a compiler is unpacked.
#[derive(Debug)]
pub enum UnpackStep {
    /// Create a directory, with those above it.
    CreateDir(Location),
    /// Write the data of an entry to a file.
    WriteFile { index: usize, place: Location },
}

/// What an [`UnpackStep`] does.
pub enum UnpackStepView {
    CreateDir(LocationView),
    WriteFile { index: int, place: LocationView },
}

impl View for UnpackStep {
    type V = UnpackStepView;

    open spec fn view(&self) -> UnpackStepView {
        match self {
            UnpackStep::CreateDir(place) => UnpackStepView::CreateDir(place@),
            UnpackStep::WriteFile { index, place } => UnpackStepView::WriteFile {
                index: *index as int,
                place: place@,
            },
        }
    }
}

/// What the steps in `v` do.
pub open spec fn step_views(v: Seq<UnpackStep>) -> Seq<UnpackStepView> {
    v.map_values(|s: UnpackStep| s@)
}

/// How the unpacking of an archive ends when all its steps went well.
#[derive(Clone, Copy, Debug, PartialEq, Eq, Structural)]
pub enum UnpackEnd {
    /// All entries have been seen to.
    Complete,
    /// The next entry has a name that leads somewhere else.
    IllegalName,
    /// The next entry cannot be read.
    Malformed,
}

impl UnpackEnd {
    /// The failure that ends the unpacking, if there is one. An archive that opens but
    /// has an entry that cannot be read is none: there is no going on with it.
    pub fn failure(self) -> (r: Option<DownloadFailure>)
        ensures
            r == (match self {
                UnpackEnd::IllegalName => Some(DownloadFailure::IllegalName),
                UnpackEnd::Complete => None,
                UnpackEnd::Malformed => None,
            }),
    {
        match self {
            UnpackEnd::IllegalName => Some(DownloadFailure::IllegalName),
            UnpackEnd::Complete | UnpackEnd::Malformed => None,
        }
    }
}

/// The steps by which an archive is unpacked, in order, and what comes after them.
#[derive(Debug)]
pub struct UnpackPlan {
    pub steps: Vec<UnpackStep>,
    pub end: UnpackEnd,
}

/// What the entry at position `i` asks for, if anything.
pub open spec fn step_of(
    path: Seq<Seq<char>>,
    is_dir: bool,
    i: int,
    out: LocationView,
) -> Seq<UnpackStepView> {
    match destination_of(path, out) {
        Some(place) => if is_dir {
            seq![UnpackStepView::CreateDir(place)]
        } else {
            seq![UnpackStepView::WriteFile { index: i, place }]
        },
        None => Seq::empty(),
    }
}

/// The steps by which the entries from position `i` on are unpacked, up to the first
/// one that cannot be.
pub open spec fn steps_from(
    entries: Seq<Option<EntryView>>,
    i: int,
    out: LocationView,
) -> Seq<UnpackStepView>
    decreases entries.len() - i,
{
    if i < 0 || i >= entries.len() {
        Seq::empty()
    } else {
        match entries[i] {
            Some(EntryView { path: Some(path), is_dir, .. }) => step_of(path, is_dir, i, out)
                + steps_from(entries, i + 1, out),
            _ => Seq::empty(),
        }
    }
}

/// How unpacking the entries from position `i` on ends.
pub open spec fn end_from(entries: Seq<Option<EntryView>>, i: int) -> UnpackEnd
    decreases entries.len() - i,
{
    if i < 0 || i >= entries.len() {
        UnpackEnd::Complete
    } else {
        match entries[i] {
            Some(EntryView { path: Some(_), .. }) => end_from(entries, i + 1),
            Some(EntryView { path: None, .. }) => UnpackEnd::IllegalName,
            None => UnpackEnd::Malformed,
        }
    }
}

/// Plans how the given entries of an archive are unpacked to the directory `out`.
pub fn plan_unpacking(entries: &Vec<Option<Entry>>, out: &Location) -> (r: UnpackPlan)
    ensures
        step_views(r.steps@) == steps_from(entry_views(entries@), 0, out@),
        r.end == end_from(entry_views(entries@), 0),
{
    let ghost all = entry_views(entries@);
    let mut steps: Vec<UnpackStep> = Vec::new();
    let mut i: usize = 0;
    assert(step_views(steps@) + steps_from(all, 0, out@) =~= steps_from(all, 0, out@));
    while i < entries.len()
        invariant
            i <= entries@.len(),
            all == entry_views(entries@),
            steps_from(all, 0, out@) == step_views(steps@) + steps_from(all, i as int, out@),
            end_from(all, 0) == end_from(all, i as int),
        decreases entries@.len() - i,
    {
        let ghost before = step_views(steps@);
        assert(all[i as int] == entry_view(entries@[i as int]));
        assert(before + Seq::<UnpackStepView>::empty() =~= before);
        match &entries[i] {
            None => {
                return UnpackPlan { steps, end: UnpackEnd::Malformed };
            },
            Some(entry) => match &entry.path {
                None => {
                    return UnpackPlan { steps, end: UnpackEnd::IllegalName };
                },
                Some(path) => {
                    let ghost names = text::views(path@);
                    if let Some(place) = destination(path, out) {
                        let step: UnpackStep = if entry.is_dir {
                            UnpackStep::CreateDir(place)
                        } else {
                            UnpackStep::WriteFile { index: i, place }
                        };
                        let ghost done = step@;
                        steps.push(step);
                        assert(step_views(steps@) =~= before.push(done));
                        assert(step_of(names, entry.is_dir, i as int, out@) =~= seq![done]);
                    }
                    assert(step_views(steps@) =~= before + step_of(
                        names,
                        entry.is_dir,
                        i as int,
                        out@,
                    ));
                    assert(before + (step_of(names, entry.is_dir, i as int, out@) + steps_from(
                        all,
                        i as int + 1,
                        out@,
                    )) =~= step_views(steps@) + steps_from(all, i as int + 1, out@));
                },
            },
        }
        i = i + 1;
    }
    assert(step_views(steps@) + Seq::<UnpackStepView>::empty() =~= step_views(steps@));
    UnpackPlan { steps, end: UnpackEnd::Complete }
}

/// An archive in memory.
pub struct Archive {
    zip: ZipArchive<Cursor<Vec<u8>>>,
}

impl View for Archive {
    type V = Seq<u8>;

    closed spec fn view(&self) -> Seq<u8> {
        zip_source(self.zip)
    }
}

impl Archive {
    /// Opens the archive that `bytes` hold.
    pub fn open(bytes: Vec<u8>) -> (r: Result<Archive, Failed<ZipError>>)
        ensures
            r is Ok <==> zip_opens(bytes@),
            r matches Ok(archive) ==> archive@ == bytes@,
            r matches Err(e) ==> e.stage == DownloadFailure::InvalidArchive,
    {
        match open_zip(bytes) {
            Ok(zip) => Ok(Archive { zip }),
            Err(cause) => Err(Failed { stage: DownloadFailure::InvalidArchive, cause }),
        }
    }

    /// The entries of the archive, in order; those that cannot be read are `None`.
    pub fn entries(&mut self) -> (r: Vec<Option<Entry>>)
        ensures
            final(self)@ == old(self)@,
            tells_entries(old(self)@, entry_views(r@)),
            forall|i: int|
                0 <= i < r@.len() ==> safe_entry(#[trigger] entry_views(r@)[i]),
    {
        let mut entries: Vec<Option<Entry>> = Vec::new();
        let n: usize = count_entries(&self.zip);
        let mut i: usize = 0;
        while i < n
            invariant
                i <= n,
                n == zip_len(self@),
                self@ == old(self)@,
                entries@.len() == i,
                forall|j: int|
                    0 <= j < i ==> tells_entry(self@, j, entry_view(#[trigger] entries@[j])),
                forall|j: int| 0 <= j < i ==> safe_entry(entry_view(#[trigger] entries@[j])),
            decreases n - i,
        {
            entries.push(entry_at(&mut self.zip, i));
            i = i + 1;
        }
        entries
    }

    /// Plans how the archive is unpacked to the directory `out`. How unpacking ends
    /// depends on the archive alone, and so do the steps unless a name in the archive
    /// has a part that looks like a drive. No step leads out of the directory.
    pub fn plan(&mut self, out: &Location) -> (r: UnpackPlan)
        ensures
            final(self)@ == old(self)@,
            r.end == end_from(named_entries(old(self)@), 0),
            no_drives(old(self)@) ==> step_views(r.steps@) == steps_from(
                named_entries(old(self)@),
                0,
                out@,
            ),
            exists|entries: Seq<Option<EntryView>>| #[trigger]
                tells_entries(old(self)@, entries) && step_views(r.steps@) == steps_from(
                    entries,
                    0,
                    out@,
                ),
            forall|k: int|
                0 <= k < r.steps@.len() ==> is_below(place_of((#[trigger] r.steps@[k])@), out@),
    {
        let entries: Vec<Option<Entry>> = self.entries();
        let ghost seen = entry_views(entries@);
        let plan: UnpackPlan = plan_unpacking(&entries, out);
        proof {
            assert(tells_entries(old(self)@, seen));
            end_depends_on_the_archive(old(self)@, seen, 0);
            if no_drives(old(self)@) {
                entries_without_drives(old(self)@, seen);
            }
            unpacked_below_out(seen, 0, out@);
            assert forall|k: int| 0 <= k < plan.steps@.len() implies is_below(
                place_of((#[trigger] plan.steps@[k])@),
                out@,
            ) by {
                assert(step_views(plan.steps@)[k] == plan.steps@[k]@);
            }
        }
        plan
    }

    /// The data of the entry at a position; where it cannot be read to its end, what
    /// was read of it and the failure.
    pub fn data(&mut self, index: usize) -> (r: Result<Vec<u8>, Partial>)
        ensures
            final(self)@ == old(self)@,
            match r {
                Ok(data) => zip_data(old(self)@, index as int) == Some(data@),
                Err(e) => zip_data(old(self)@, index as int) is None && e.failed.stage
                    == DownloadFailure::CopyFile,
            },
    {
        match data_at(&mut self.zip, index) {
            (data, None) => Ok(data),
            (read, Some(cause)) => Err(
                Partial { read, failed: Failed { stage: DownloadFailure::CopyFile, cause } },
            ),
        }
    }
}

proof fn end_depends_on_the_archive(bytes: Seq<u8>, entries: Seq<Option<EntryView>>, i: int)
    requires
        0 <= i,
        tells_entries(bytes, entries),
    ensures
        end_from(entries, i) == end_from(named_entries(bytes), i),
    decreases entries.len() - i,
{
    if i < entries.len() {
        assert(tells_entry(bytes, i, entries[i]));
        end_depends_on_the_archive(bytes, entries, i + 1);
    }
}

proof fn entries_without_drives(bytes: Seq<u8>, entries: Seq<Option<EntryView>>)
    requires
        no_drives(bytes),
        tells_entries(bytes, entries),
    ensures
        entries == named_entries(bytes),
{
    assert forall|i: int| 0 <= i < entries.len() implies entries[i] == named_entry(bytes, i) by {
        assert(tells_entry(bytes, i, entries[i]));
        assert(!drive_in(bytes, i));
    }
    assert(entries =~= named_entries(bytes));
}

/// The place of a step.
pub open spec fn place_of(step: UnpackStepView) -> LocationView {
    match step {
        UnpackStepView::CreateDir(place) => place,
        UnpackStepView::WriteFile { place, .. } => place,
    }
}

/// Whether `place` is reached from `out` by steps down alone.
pub open spec fn is_below(place: LocationView, out: LocationView) -> bool {
    &&& place.base == out.base
    &&& place.below.len() > out.below.len()
    &&& place.below.take(out.below.len() as int) == out.below
    &&& forall|k: int|
        out.below.len() <= k < place.below.len() ==> plain_name(#[trigger] place.below[k])
}

proof fn build_file_is_a_plain_name()
    ensures
        plain_name(BUILD_FILE@),
{
    reveal_strlit("build.txt");
    reveal_strlit(".");
    reveal_strlit("..");
    assert(BUILD_FILE@.len() == 9);
}

proof fn destination_is_below(path: Seq<Seq<char>>, out: LocationView)
    requires
        forall|k: int| 0 <= k < path.len() ==> plain_name(#[trigger] path[k]),
        destination_of(path, out) is Some,
    ensures
        is_below(destination_of(path, out)->0, out),
{
    let place = destination_of(path, out)->0;
    build_file_is_a_plain_name();
    assert(place.below.take(out.below.len() as int) =~= out.below);
    assert forall|k: int| out.below.len() <= k < place.below.len() implies plain_name(
        #[trigger] place.below[k],
    ) by {
        if place != out.join(BUILD_FILE@) {
            assert(place.below[k] == path[k - out.below.len() + 1]);
        }
    }
}

/// Nothing is unpacked outside of the directory that an archive is unpacked to,
/// whatever the archive holds.
pub proof fn unpacked_below_out(entries: Seq<Option<EntryView>>, i: int, out: LocationView)
    requires
        0 <= i,
        forall|k: int| 0 <= k < entries.len() ==> safe_entry(#[trigger] entries[k]),
    ensures
        forall|k: int|
            0 <= k < steps_from(entries, i, out).len() ==> is_below(
                place_of(#[trigger] steps_from(entries, i, out)[k]),
                out,
            ),
    decreases entries.len() - i,
{
    if i < entries.len() {
        unpacked_below_out(entries, i + 1, out);
        assert(safe_entry(entries[i]));
        if let Some(EntryView { path: Some(path), is_dir, .. }) = entries[i] {
            let first = step_of(path, is_dir, i, out);
            let rest = steps_from(entries, i + 1, out);
            if destination_of(path, out) is Some {
                reveal_strlit("kotlinc");
                assert(!path[0].contains(':'));
                destination_is_below(path, out);
            }
            assert forall|k: int| 0 <= k < (first + rest).len() implies is_below(
                place_of(#[trigger] (first + rest)[k]),
                out,
            ) by {
                if k >= first.len() {
                    assert((first + rest)[k] == rest[k - first.len()]);
                }
            }
        }
    }
}

/// What is unpacked is the build file of the compiler, or stands in its `lib`
/// directory.
pub proof fn only_the_compiler_is_unpacked(path: Seq<Seq<char>>, out: LocationView)
    ensures
        destination_of(path, out) matches Some(place) ==> {
            ||| place == out.join(BUILD_FILE@)
            ||| place.below.len() > out.below.len() && place.below[out.below.len() as int]
                == "lib"@
        },
{
}

/// A file of the compiler's library keeps its names: where its own name is spelled in
/// the usual way, they lead to it from the directory that the archive is unpacked to.
pub proof fn library_keeps_its_names(
    bytes: Seq<u8>,
    i: int,
    entry: EntryView,
    names: Seq<Seq<char>>,
    out: LocationView,
)
    requires
        tells_entry(bytes, i, Some(entry)),
        entry.name is Some,
        spells(entry.name->0, names),
        names.len() > 1,
        names[0] == "kotlinc"@,
        names[1] == "lib"@,
        names.last() != BUILD_FILE@,
    ensures
        entry.path == Some(names),
        destination_of(names, out) == Some(out.join_all(names.skip(1))),
{
    assert(names.skip(1).last() == names.last());
}

/// Whether the entry at position `i` asks for `step`.
pub open spec fn asks_for(
    entries: Seq<Option<EntryView>>,
    i: int,
    out: LocationView,
    step: UnpackStepView,
) -> bool {
    match entries[i] {
        Some(EntryView { path: Some(path), is_dir, .. }) => step_of(path, is_dir, i, out) == seq![step],
        _ => false,
    }
}

/// Every step was asked for by an entry of the archive, at or after the position that
/// the steps begin at.
pub proof fn steps_come_from_entries(
    entries: Seq<Option<EntryView>>,
    i: int,
    out: LocationView,
    k: int,
)
    requires
        0 <= i,
        0 <= k < steps_from(entries, i, out).len(),
    ensures
        exists|j: int|
            i <= j < entries.len() && #[trigger] asks_for(
                entries,
                j,
                out,
                steps_from(entries, i, out)[k],
            ),
    decreases entries.len() - i,
{
    if let Some(EntryView { path: Some(path), is_dir, .. }) = entries[i] {
        let first = step_of(path, is_dir, i, out);
        let rest = steps_from(entries, i + 1, out);
        if k < first.len() {
            assert(first =~= seq![(first + rest)[k]]);
            assert(asks_for(entries, i, out, (first + rest)[k]));
        } else {
            assert((first + rest)[k] == rest[k - first.len()]);
            steps_come_from_entries(entries, i + 1, out, k - first.len());
            let j = choose|j: int|
                i + 1 <= j < entries.len() && #[trigger] asks_for(
                    entries,
                    j,
                    out,
                    rest[k - first.len()],
                );
            assert(asks_for(entries, j, out, steps_from(entries, i, out)[k]));
        }
    }
}

/// Whether `a` does not write the data of an entry that stands at or after the one
/// that `b` writes.
pub open spec fn written_before(a: UnpackStepView, b: UnpackStepView) -> bool {
    match (a, b) {
        (
            UnpackStepView::WriteFile { index: first, .. },
            UnpackStepView::WriteFile { index: second, .. },
        ) => first < second,
        _ => true,
    }
}

/// Files are written in the order of the archive: of two steps that write a file, the
/// later one writes the data of a later entry.
pub proof fn files_are_written_in_order(entries: Seq<Option<EntryView>>, i: int, out: LocationView)
    requires
        0 <= i,
    ensures
        forall|k: int|
            0 <= k < steps_from(entries, i, out).len() ==> (
            #[trigger] steps_from(entries, i, out)[k] matches UnpackStepView::WriteFile {
                index,
                ..
            } ==> i <= index < entries.len()),
        forall|a: int, b: int|
            0 <= a < b < steps_from(entries, i, out).len() ==> written_before(
                #[trigger] steps_from(entries, i, out)[a],
                #[trigger] steps_from(entries, i, out)[b],
            ),
    decreases entries.len() - i,
{
    if i < entries.len() {
        files_are_written_in_order(entries, i + 1, out);
        if let Some(EntryView { path: Some(path), is_dir, .. }) = entries[i] {
            let first = step_of(path, is_dir, i, out);
            let rest = steps_from(entries, i + 1, out);
            assert forall|k: int| 0 <= k < (first + rest).len() implies (
            #[trigger] (first + rest)[k] matches UnpackStepView::WriteFile { index, .. } ==> i
                <= index < entries.len()) by {
                if k >= first.len() {
                    assert((first + rest)[k] == rest[k - first.len()]);
                }
            }
            assert forall|a: int, b: int| 0 <= a < b < (first + rest).len() implies written_before(
                #[trigger] (first + rest)[a],
                #[trigger] (first + rest)[b],
            ) by {
                assert((first + rest)[b] == rest[b - first.len()]);
                if a >= first.len() {
                    assert((first + rest)[a] == rest[a - first.len()]);
                }
            }
        }
    }
}

/// Whether an entry can be unpacked: it could be read and its path is safe.
pub open spec fn usable(entry: Option<EntryView>) -> bool {
    entry matches Some(e) && e.path is Some
}

/// Each entry that asks for a step gets it, provided that it and all entries before
/// it can be unpacked.
pub proof fn wanted_entry_is_unpacked(
    entries: Seq<Option<EntryView>>,
    i: int,
    out: LocationView,
    j: int,
    step: UnpackStepView,
)
    requires
        0 <= i <= j < entries.len(),
        forall|k: int| i <= k <= j ==> usable(#[trigger] entries[k]),
        asks_for(entries, j, out, step),
    ensures
        steps_from(entries, i, out).contains(step),
    decreases entries.len() - i,
{
    assert(usable(entries[i]));
    let first = step_of((entries[i]->0).path->0, (entries[i]->0).is_dir, i, out);
    let rest = steps_from(entries, i + 1, out);
    assert(steps_from(entries, i, out) == first + rest);
    if i == j {
        assert((first + rest)[0] == step);
    } else {
        wanted_entry_is_unpacked(entries, i + 1, out, j, step);
        let k = choose|k: int| 0 <= k < rest.len() && rest[k] == step;
        assert((first + rest)[first.len() + k] == step);
    }
}

/// Unpacking is complete exactly where every entry can be unpacked. Otherwise the
/// first entry that cannot be decides how it ends, and neither that entry nor any
/// after it adds a step.
pub proof fn unpacking_stops_at_the_first_bad_entry(
    entries: Seq<Option<EntryView>>,
    i: int,
    out: LocationView,
    bad: int,
)
    requires
        0 <= i <= bad <= entries.len(),
        forall|k: int| i <= k < bad ==> usable(#[trigger] entries[k]),
        bad < entries.len() ==> !usable(entries[bad]),
    ensures
        end_from(entries, i) == (if bad == entries.len() {
            UnpackEnd::Complete
        } else if entries[bad] is None {
            UnpackEnd::Malformed
        } else {
            UnpackEnd::IllegalName
        }),
        steps_from(entries, i, out) == steps_from(entries.take(bad), i, out),
    decreases entries.len() - i,
{
    if i < bad {
        assert(usable(entries[i]));
        assert(entries.take(bad)[i] == entries[i]);
        unpacking_stops_at_the_first_bad_entry(entries, i + 1, out, bad);
    }
}

/// Which entries are unpacked, and where to: those below `kotlinc` that are called
/// `build.txt` or stand in `lib`, and no others. What is called `build.txt` becomes the
/// build file, and nothing else does; the rest keeps its names below `kotlinc`.
pub proof fn which_entries_are_unpacked(path: Seq<Seq<char>>, out: LocationView)
    ensures
        destination_of(path, out) is Some <==> path.len() >= 2 && path[0] == "kotlinc"@ && (
        path.last() == "build.txt"@ || path[1] == "lib"@),
        destination_of(path, out) matches Some(place) ==> {
            &&& place.base == out.base
            &&& path.last() == "build.txt"@ ==> place.below == out.below.push("build.txt"@)
            &&& path.last() != "build.txt"@ ==> place.below == out.below + path.skip(1)
            &&& place == out.join("build.txt"@) ==> path.last() == "build.txt"@
        },
{
    if path.len() >= 2 {
        assert(path.skip(1).last() == path.last());
        assert(path.skip(1)[0] == path[1]);
        if path.last() != "build.txt"@ {
            assert((out.below + path.skip(1)).last() == path.last());
            assert(out.join("build.txt"@).below.last() == "build.txt"@);
        }
    }
}

/// Unpacking goes entry by entry: one more entry at the end of an archive changes
/// nothing of what is done before it. If all the others can be unpacked and it has a
/// place, it adds one step, which makes the directory or writes the file that the entry
/// is; otherwise it adds none.
pub proof fn unpacking_goes_entry_by_entry(
    entries: Seq<Option<EntryView>>,
    last: Option<EntryView>,
    i: int,
    out: LocationView,
)
    requires
        0 <= i <= entries.len(),
    ensures
        ({
            let before = steps_from(entries, i, out);
            let after = steps_from(entries.push(last), i, out);
            let reached = forall|k: int|
                i <= k < entries.len() ==> (#[trigger] entries[k]) is Some && (
                entries[k]->0).path is Some;
            match last {
                Some(EntryView { path: Some(path), is_dir, .. }) => {
                    &&& !reached ==> after == before
                    &&& reached && destination_of(path, out) is None ==> after == before
                    &&& reached && is_dir ==> (destination_of(path, out) matches Some(place) ==> after
                        == before.push(UnpackStepView::CreateDir(place)))
                    &&& reached && !is_dir ==> (destination_of(path, out) matches Some(place)
                        ==> after == before.push(
                        UnpackStepView::WriteFile { index: entries.len() as int, place },
                    ))
                },
                _ => after == before,
            }
        }),
        steps_from(Seq::empty(), 0, out).len() == 0,
        i == entries.len() ==> steps_from(entries, i, out).len() == 0,
    decreases entries.len() - i,
{
    let longer = entries.push(last);
    let none = Seq::<UnpackStepView>::empty();
    let before = steps_from(entries, i, out);
    let after = steps_from(longer, i, out);
    if i == entries.len() {
        assert(longer[i] == last);
        assert(steps_from(longer, i + 1, out) == none);
        if let Some(EntryView { path: Some(path), is_dir, .. }) = last {
            assert(after == step_of(path, is_dir, i, out) + none);
            if let Some(place) = destination_of(path, out) {
                if is_dir {
                    assert(after =~= before.push(UnpackStepView::CreateDir(place)));
                } else {
                    assert(after =~= before.push(UnpackStepView::WriteFile { index: i, place }));
                }
            } else {
                assert(after =~= before);
            }
        }
    } else {
        unpacking_goes_entry_by_entry(entries, last, i + 1, out);
        assert(longer[i] == entries[i]);
        if let Some(EntryView { path: Some(path), is_dir, .. }) = entries[i] {
            let first = step_of(path, is_dir, i, out);
            let rest = steps_from(entries, i + 1, out);
            let more = steps_from(longer, i + 1, out);
            assert(before == first + rest);
            assert(after == first + more);
            if let Some(EntryView { path: Some(path), is_dir, .. }) = last {
                if let Some(place) = destination_of(path, out) {
                    let dir = UnpackStepView::CreateDir(place);
                    let file = UnpackStepView::WriteFile { index: entries.len() as int, place };
                    assert(first + rest.push(dir) =~= (first + rest).push(dir));
                    assert(first + rest.push(file) =~= (first + rest).push(file));
                }
            }
        }
    }
}

/// The address of an archive names the version twice, in full: in the directory of the
/// release and in the file.
pub proof fn address_names_the_version(version: Seq<char>)
    ensures
        ({
            let url = url_of(version);
            let n = version.len() as int;
            &&& url.len() == 76 + 2 * n
            &&& url.take(55) == "https://github.com/JetBrains/kotlin/releases/download/v"@
            &&& url.subrange(55, 55 + n) == version
            &&& url.subrange(55 + n, 72 + n) == "/kotlin-compiler-"@
            &&& url.subrange(72 + n, 72 + 2 * n) == version
            &&& url.skip(72 + 2 * n) == ".zip"@
        }),
{
    reveal_strlit("https://github.com/JetBrains/kotlin/releases/download/v");
    reveal_strlit("/kotlin-compiler-");
    reveal_strlit(".zip");
    let url = url_of(version);
    let n = version.len() as int;
    assert(url.take(55) =~= "https://github.com/JetBrains/kotlin/releases/download/v"@);
    assert(url.subrange(55, 55 + n) =~= version);
    assert(url.subrange(55 + n, 72 + n) =~= "/kotlin-compiler-"@);
    assert(url.subrange(72 + n, 72 + 2 * n) =~= version);
    assert(url.skip(72 + 2 * n) =~= ".zip"@);
}

/// Entries and steps are seen whole, each in its own place.
pub proof fn entries_are_seen_whole(
    entries: Seq<Option<Entry>>,
    entry: Entry,
    steps: Seq<UnpackStep>,
    step: UnpackStep,
)
    ensures
        entry_views(entries).len() == entries.len(),
        forall|i: int|
            0 <= i < entries.len() ==> (#[trigger] entry_views(entries)[i] is Some <==> entries[i]
                is Some),
        forall|i: int|
            0 <= i < entries.len() ==> (entries[i] matches Some(e) ==> (#[trigger] entry_views(
                entries,
            )[i]) == Some(e@)),
        entry@.name == text::option_view(entry.name),
        entry@.is_dir == entry.is_dir,
        entry.path is Some <==> entry@.path is Some,
        entry.path matches Some(path) ==> entry@.path == Some(text::views(path@)),
        step_views(steps).len() == steps.len(),
        forall|i: int| 0 <= i < steps.len() ==> (#[trigger] step_views(steps)[i]) == steps[i]@,
        match step {
            UnpackStep::CreateDir(place) => step@ == UnpackStepView::CreateDir(place@),
            UnpackStep::WriteFile { index, place } => step@ == (UnpackStepView::WriteFile {
                index: index as int,
                place: place@,
            }),
        },
{
}

/// What stands in an archive is told position by position: an entry that cannot be read
/// is missing, and one that can has the name, the path and the kind that it has there.
pub proof fn entries_are_named_one_by_one(bytes: Seq<u8>, i: int)
    requires
        0 <= i < zip_len(bytes),
    ensures
        named_entries(bytes).len() == zip_len(bytes),
        zip_entry(bytes, i) is None <==> named_entries(bytes)[i] is None,
        zip_entry(bytes, i) matches Some((name, is_dir)) ==> {
            &&& (named_entries(bytes)[i]->0).name == name
            &&& (named_entries(bytes)[i]->0).is_dir == is_dir
            &&& name is None ==> (named_entries(bytes)[i]->0).path is None
            &&& name matches Some(n) ==> (named_entries(bytes)[i]->0).path == enclosed(n)
        },
{
}

/// How unpacking ends: it is complete exactly where every entry could be read and has a
/// path; otherwise the first entry that could not be read, or has none, decides.
pub proof fn how_unpacking_ends(entries: Seq<Option<EntryView>>, i: int, bad: int)
    requires
        0 <= i <= bad <= entries.len(),
        forall|k: int|
            i <= k < bad ==> (#[trigger] entries[k]) is Some && (entries[k]->0).path is Some,
    ensures
        bad == entries.len() ==> end_from(entries, i) == UnpackEnd::Complete,
        bad < entries.len() && entries[bad] is None ==> end_from(entries, i)
            == UnpackEnd::Malformed,
        bad < entries.len() && entries[bad] is Some && (entries[bad]->0).path is None ==> end_from(
            entries,
            i,
        ) == UnpackEnd::IllegalName,
    decreases bad - i,
{
    if i < bad {
        assert(entries[i] is Some && (entries[i]->0).path is Some);
        how_unpacking_ends(entries, i + 1, bad);
    }
}

} // verus!
