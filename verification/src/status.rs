//! The messages by which the build tells a display how it is getting on, and the
//! handle through which they are sent.

use vstd::prelude::*;
use vstd::string::*;

verus! {

/// How a display shows what it is told.
#[derive(Clone, Copy, Debug, PartialEq, Eq, Structural)]
pub enum OutputFormat {
    Text,
    Json,
}

/// One message to a display.
#[allow(inconsistent_fields)]
#[derive(Debug)]
pub enum Status {
    /// The task `key` starts.
    Begin { key: String, msg: String },
    /// The task `key` has something else to show.
    Update { key: String, msg: String },
    /// The task `key` ends, with a last message or without one.
    End { key: String, msg: Option<String> },
    /// All tasks are forgotten.
    Clear,
    /// The build cannot go on.
    Fatal(String),
    /// A message that belongs to no task.
    Log(String),
    /// What a tool wrote to its standard output.
    Stdout(Vec<u8>),
    /// What a tool wrote to its standard error.
    Stderr(Vec<u8>),
}

/// What a [`Status`] says.
#[allow(inconsistent_fields)]
pub enum StatusView {
    Begin { key: Seq<char>, msg: Seq<char> },
    Update { key: Seq<char>, msg: Seq<char> },
    End { key: Seq<char>, msg: Option<Seq<char>> },
    Clear,
    Fatal(Seq<char>),
    Log(Seq<char>),
    Stdout(Seq<u8>),
    Stderr(Seq<u8>),
}

impl View for Status {
    type V = StatusView;

    open spec fn view(&self) -> StatusView {
        match self {
            Status::Begin { key, msg } => StatusView::Begin { key: key@, msg: msg@ },
            Status::Update { key, msg } => StatusView::Update { key: key@, msg: msg@ },
            Status::End { key, msg } => StatusView::End {
                key: key@,
                msg: match msg {
                    Some(m) => Some(m@),
                    None => None,
                },
            },
            Status::Clear => StatusView::Clear,
            Status::Fatal(msg) => StatusView::Fatal(msg@),
            Status::Log(msg) => StatusView::Log(msg@),
            Status::Stdout(bytes) => StatusView::Stdout(bytes@),
            Status::Stderr(bytes) => StatusView::Stderr(bytes@),
        }
    }
}

/// What the messages in `v` say.
pub open spec fn status_views(v: Seq<Status>) -> Seq<StatusView> {
    v.map_values(|s: Status| s@)
}

/// Where messages are sent. A handle is open until it is shut down; what is sent
/// through an open handle waits in it, in order, until it is drained.
#[derive(Debug)]
pub struct StatusHandle {
    open: bool,
    format: OutputFormat,
    pending: Vec<Status>,
}

/// The state of a [`StatusHandle`].
pub struct HandleView {
    pub open: bool,
    pub format: OutputFormat,
    pub pending: Seq<StatusView>,
}

impl View for StatusHandle {
    type V = HandleView;

    closed spec fn view(&self) -> HandleView {
        HandleView {
            open: self.open,
            format: self.format,
            pending: status_views(self.pending@),
        }
    }
}

impl HandleView {
    /// The handle after `status` was sent through it.
    pub open spec fn sent(self, status: StatusView) -> HandleView {
        if self.open {
            HandleView { pending: self.pending.push(status), ..self }
        } else {
            self
        }
    }

    /// The handle after it was shut down.
    pub open spec fn closed(self) -> HandleView {
        HandleView { open: false, ..self }
    }
}

/// The key of the task that resolves the artifact `coord`.
pub open spec fn resolve_key(coord: Seq<char>) -> Seq<char> {
    "resolve:"@ + coord
}

/// The key of the task that downloads the artifact `coord`.
pub open spec fn download_key(coord: Seq<char>) -> Seq<char> {
    "dl:"@ + coord
}

impl StatusHandle {
    /// An open handle for displays of the given format, with nothing sent yet.
    pub fn init(format: OutputFormat) -> (r: StatusHandle)
        ensures
            r@ == (HandleView { open: true, format, pending: Seq::empty() }),
    {
        let pending: Vec<Status> = Vec::new();
        assert(status_views(pending@) =~= Seq::empty());
        StatusHandle { open: true, format, pending }
    }

    /// Sends one message; a handle that was shut down drops it.
    pub fn send(&mut self, status: Status)
        ensures
            final(self)@ == old(self)@.sent(status@),
    {
        if self.open {
            let ghost before = status_views(self.pending@);
            let ghost said = status@;
            self.pending.push(status);
            assert(status_views(self.pending@) =~= before.push(said));
        }
    }

    /// Shuts the handle down. What was sent before stays in it.
    pub fn shutdown(&mut self)
        ensures
            final(self)@ == old(self)@.closed(),
    {
        self.open = false;
    }

    /// Takes out all that was sent since the handle was last drained.
    pub fn drain(&mut self) -> (r: Vec<Status>)
        ensures
            status_views(r@) == old(self)@.pending,
            final(self)@ == (HandleView { pending: Seq::empty(), ..old(self)@ }),
    {
        let mut taken: Vec<Status> = Vec::new();
        std::mem::swap(&mut taken, &mut self.pending);
        assert(status_views(self.pending@) =~= Seq::empty());
        taken
    }

    /// The format that the handle was made for.
    pub fn format(&self) -> (r: OutputFormat)
        ensures
            r == self@.format,
    {
        self.format
    }

    /// Tells that the task `key` starts.
    pub fn begin(&mut self, key: String, msg: String)
        ensures
            final(self)@ == old(self)@.sent(StatusView::Begin { key: key@, msg: msg@ }),
    {
        self.send(Status::Begin { key, msg });
    }

    /// Tells what the task `key` shows from now on.
    pub fn update(&mut self, key: String, msg: String)
        ensures
            final(self)@ == old(self)@.sent(StatusView::Update { key: key@, msg: msg@ }),
    {
        self.send(Status::Update { key, msg });
    }

    /// Tells that the task `key` ends, without a message.
    pub fn end(&mut self, key: String)
        ensures
            final(self)@ == old(self)@.sent(StatusView::End { key: key@, msg: None }),
    {
        self.send(Status::End { key, msg: None });
    }

    /// Tells that the task `key` ends, with a message.
    pub fn end_log(&mut self, key: String, msg: String)
        ensures
            final(self)@ == old(self)@.sent(StatusView::End { key: key@, msg: Some(msg@) }),
    {
        self.send(Status::End { key, msg: Some(msg) });
    }

    /// Tells that the artifact `coord` is being resolved.
    pub fn resolving(&mut self, coord: &str)
        ensures
            final(self)@ == old(self)@.sent(
                StatusView::Begin { key: resolve_key(coord@), msg: "resolving "@ + coord@ },
            ),
    {
        self.begin("resolve:".to_owned().concat(coord), "resolving ".to_owned().concat(coord));
    }

    /// Tells that the artifact `coord` has been resolved.
    pub fn resolved(&mut self, coord: &str)
        ensures
            final(self)@ == old(self)@.sent(
                StatusView::End { key: resolve_key(coord@), msg: None },
            ),
    {
        self.end("resolve:".to_owned().concat(coord));
    }

    /// Tells that the artifact `coord` is being downloaded.
    pub fn downloading(&mut self, coord: &str)
        ensures
            final(self)@ == old(self)@.sent(
                StatusView::Begin { key: download_key(coord@), msg: "downloading "@ + coord@ },
            ),
    {
        self.begin("dl:".to_owned().concat(coord), "downloading ".to_owned().concat(coord));
    }

    /// Tells that the artifact `coord` has been downloaded.
    pub fn downloaded(&mut self, coord: &str)
        ensures
            final(self)@ == old(self)@.sent(
                StatusView::End { key: download_key(coord@), msg: None },
            ),
    {
        self.end("dl:".to_owned().concat(coord));
    }

    /// Tells that no task is left.
    pub fn clear(&mut self)
        ensures
            final(self)@ == old(self)@.sent(StatusView::Clear),
    {
        self.send(Status::Clear);
    }

    /// Sends a message that belongs to no task.
    pub fn log(&mut self, msg: String)
        ensures
            final(self)@ == old(self)@.sent(StatusView::Log(msg@)),
    {
        self.send(Status::Log(msg));
    }

    /// Tells that the build cannot go on.
    pub fn fatal(&mut self, msg: String)
        ensures
            final(self)@ == old(self)@.sent(StatusView::Fatal(msg@)),
    {
        self.send(Status::Fatal(msg));
    }

    /// Tells how the task `key` came out: only a task that went well leaves the
    /// message `done_msg`.
    pub fn task_done(&mut self, key: &str, done_msg: String, ok: bool)
        ensures
            final(self)@ == old(self)@.sent(
                StatusView::End {
                    key: key@,
                    msg: if ok {
                        Some(done_msg@)
                    } else {
                        None
                    },
                },
            ),
    {
        let msg: Option<String> = if ok {
            Some(done_msg)
        } else {
            None
        };
        self.send(Status::End { key: key.to_owned(), msg });
    }

    /// Runs `f` as the task `key` and returns what it returned. `f` is handed the
    /// handle, through which the task has begun by then, and gives it back with what
    /// it sent itself; after that the task ends, with `done_msg` where `f` went well.
    pub fn task<T, E, F: FnOnce(StatusHandle) -> (StatusHandle, Result<T, E>)>(
        &mut self,
        key: &str,
        spinner_msg: String,
        done_msg: String,
        f: F,
    ) -> (r: Result<T, E>)
        requires
            forall|begun: StatusHandle|
                begun@ == old(self)@.sent(StatusView::Begin { key: key@, msg: spinner_msg@ })
                    ==> #[trigger] f.requires((begun,)),
        ensures
            exists|begun: StatusHandle, left: StatusHandle|
                {
                    &&& begun@ == old(self)@.sent(
                        StatusView::Begin { key: key@, msg: spinner_msg@ },
                    )
                    &&& #[trigger] f.ensures((begun,), (left, r))
                    &&& final(self)@ == left@.sent(
                        StatusView::End {
                            key: key@,
                            msg: if r is Ok {
                                Some(done_msg@)
                            } else {
                                None
                            },
                        },
                    )
                },
    {
        let mut begun: StatusHandle = StatusHandle::init(self.format);
        std::mem::swap(&mut begun, self);
        begun.begin(key.to_owned(), spinner_msg);
        let (left, result): (StatusHandle, Result<T, E>) = f(begun);
        *self = left;
        self.task_done(key, done_msg, result.is_ok());
        result
    }

    /// Passes on what a tool wrote to its standard output, if it wrote anything.
    pub fn stdout(&mut self, bytes: Vec<u8>)
        ensures
            final(self)@ == (if bytes@.len() == 0 {
                old(self)@
            } else {
                old(self)@.sent(StatusView::Stdout(bytes@))
            }),
    {
        if !bytes.is_empty() {
            self.send(Status::Stdout(bytes));
        }
    }

    /// Passes on what a tool wrote to its standard error, if it wrote anything.
    pub fn stderr(&mut self, bytes: Vec<u8>)
        ensures
            final(self)@ == (if bytes@.len() == 0 {
                old(self)@
            } else {
                old(self)@.sent(StatusView::Stderr(bytes@))
            }),
    {
        if !bytes.is_empty() {
            self.send(Status::Stderr(bytes));
        }
    }
}

/// Why there is no handle to be had.
#[derive(Clone, Copy, Debug, PartialEq, Eq, Structural)]
pub enum SlotError {
    /// A handle has been set up before.
    AlreadyInitialized,
    /// No handle has been set up.
    NotInitialized,
}

impl SlotError {
    /// The message for the error.
    pub fn message(self) -> (r: &'static str)
        ensures
            r@ == (match self {
                SlotError::AlreadyInitialized => "StatusHandle already initialized"@,
                SlotError::NotInitialized => "StatusHandle not initialized"@,
            }),
    {
        match self {
            SlotError::AlreadyInitialized => "StatusHandle already initialized",
            SlotError::NotInitialized => "StatusHandle not initialized",
        }
    }
}

/// The place of the one handle of a process.
#[derive(Debug)]
pub struct StatusSlot {
    handle: Option<StatusHandle>,
}

/// The handle in a [`StatusSlot`], if it has been set up.
pub type SlotView = Option<HandleView>;

impl View for StatusSlot {
    type V = SlotView;

    closed spec fn view(&self) -> SlotView {
        match self.handle {
            Some(handle) => Some(handle@),
            None => None,
        }
    }
}

/// The slot after a handle of the given format was to be set up in it: only the first
/// one is.
pub open spec fn slot_after_init(slot: SlotView, format: OutputFormat) -> SlotView {
    match slot {
        Some(handle) => Some(handle),
        None => Some(HandleView { open: true, format, pending: Seq::empty() }),
    }
}

impl StatusSlot {
    /// A slot without a handle.
    pub fn new() -> (r: StatusSlot)
        ensures
            r@ is None,
    {
        StatusSlot { handle: None }
    }

    /// Sets up the handle. A second one is refused, and leaves the first in place.
    pub fn init(&mut self, format: OutputFormat) -> (r: Result<(), SlotError>)
        ensures
            final(self)@ == slot_after_init(old(self)@, format),
            r == (if old(self)@ is None {
                Ok::<(), SlotError>(())
            } else {
                Err::<(), SlotError>(SlotError::AlreadyInitialized)
            }),
    {
        if self.handle.is_some() {
            Err(SlotError::AlreadyInitialized)
        } else {
            self.handle = Some(StatusHandle::init(format));
            Ok(())
        }
    }

    /// The handle. What is sent through it stays in the slot.
    pub fn get(&mut self) -> (r: Result<&mut StatusHandle, SlotError>)
        ensures
            match r {
                Ok(handle) => old(self)@ == Some(handle@) && final(self)@ == Some(final(handle)@),
                Err(e) => old(self)@ is None && final(self)@ is None && e
                    == SlotError::NotInitialized,
            },
    {
        match &mut self.handle {
            Some(handle) => Ok(handle),
            None => Err(SlotError::NotInitialized),
        }
    }
}

/// There is one handle per process. The first one that is set up has the format that
/// was asked for, and what is sent through it waits in it; from then on, whatever has
/// become of it, setting up another one leaves it as it is.
pub proof fn first_handle_stays(
    format: OutputFormat,
    status: StatusView,
    later: HandleView,
    other: OutputFormat,
)
    ensures
        ({
            let first = slot_after_init(None, format)->0;
            &&& first.open
            &&& first.format == format
            &&& first.sent(status).format == format
            &&& first.sent(status).pending == seq![status]
            &&& slot_after_init(Some(later), other) == Some(later)
        }),
{
    let first = slot_after_init(None, format)->0;
    assert(first.sent(status).pending =~= seq![status]);
}

/// A handle that was shut down drops every message, whatever is sent through it.
pub proof fn closed_handle_drops_messages(handle: HandleView, status: StatusView)
    ensures
        handle.closed().sent(status) == handle.closed(),
{
}

/// Neither sending a message nor shutting down changes a handle's format.
pub proof fn handle_keeps_its_format(handle: HandleView, status: StatusView)
    ensures
        handle.sent(status).format == handle.format,
        handle.closed().format == handle.format,
{
}

/// Messages wait in the order in which they were sent, and nothing that was sent
/// before is lost or changed by sending another.
pub proof fn messages_keep_their_order(handle: HandleView, first: StatusView, second: StatusView)
    requires
        handle.open,
    ensures
        handle.sent(first).sent(second).pending == handle.pending + seq![first, second],
{
    assert(handle.pending.push(first).push(second) =~= handle.pending + seq![first, second]);
}

/// An artifact's resolution and its download are two tasks: no resolution has the
/// key of a download.
pub proof fn artifact_tasks_have_their_own_keys(a: Seq<char>, b: Seq<char>)
    ensures
        resolve_key(a) != download_key(b),
        resolve_key(a) == resolve_key(b) ==> a == b,
        download_key(a) == download_key(b) ==> a == b,
{
    reveal_strlit("resolve:");
    reveal_strlit("dl:");
    assert(resolve_key(a)[0] == 'r');
    assert(download_key(b)[0] == 'd');
    assert(resolve_key(a).skip(8) =~= a);
    assert(resolve_key(b).skip(8) =~= b);
    assert(download_key(a).skip(3) =~= a);
    assert(download_key(b).skip(3) =~= b);
}

/// Sending puts a message behind those that wait, and changes nothing else; only an
/// open handle takes it. Shutting down closes the handle and leaves what waits in it.
pub proof fn sending_adds_one_message(handle: HandleView, status: StatusView)
    ensures
        handle.sent(status).open == handle.open,
        handle.sent(status).format == handle.format,
        handle.open ==> handle.sent(status).pending.len() == handle.pending.len() + 1
            && handle.sent(status).pending.last() == status,
        handle.open ==> forall|i: int|
            0 <= i < handle.pending.len() ==> (#[trigger] handle.sent(status).pending[i])
                == handle.pending[i],
        !handle.open ==> handle.sent(status) == handle,
        !handle.closed().open,
        handle.closed().pending == handle.pending,
        handle.closed().format == handle.format,
{
}

/// The keys of an artifact's tasks name the artifact in full, behind what is done with
/// it.
pub proof fn keys_name_the_artifact(coord: Seq<char>)
    ensures
        resolve_key(coord).take(8) == "resolve:"@,
        resolve_key(coord).skip(8) == coord,
        download_key(coord).take(3) == "dl:"@,
        download_key(coord).skip(3) == coord,
{
    reveal_strlit("resolve:");
    reveal_strlit("dl:");
    assert(resolve_key(coord).take(8) =~= "resolve:"@);
    assert(resolve_key(coord).skip(8) =~= coord);
    assert(download_key(coord).take(3) =~= "dl:"@);
    assert(download_key(coord).skip(3) =~= coord);
}

/// Messages are seen whole, each in its own place.
pub proof fn messages_are_seen_whole(v: Seq<Status>, status: Status)
    ensures
        status_views(v).len() == v.len(),
        forall|i: int| 0 <= i < v.len() ==> (#[trigger] status_views(v)[i]) == v[i]@,
        match status {
            Status::Begin { key, msg } => status@ == (StatusView::Begin { key: key@, msg: msg@ }),
            Status::Update { key, msg } => status@ == (StatusView::Update {
                key: key@,
                msg: msg@,
            }),
            Status::End { key, msg: Some(msg) } => status@ == (StatusView::End {
                key: key@,
                msg: Some(msg@),
            }),
            Status::End { key, msg: None } => status@ == (StatusView::End {
                key: key@,
                msg: None,
            }),
            Status::Clear => status@ == StatusView::Clear,
            Status::Fatal(msg) => status@ == StatusView::Fatal(msg@),
            Status::Log(msg) => status@ == StatusView::Log(msg@),
            Status::Stdout(bytes) => status@ == StatusView::Stdout(bytes@),
            Status::Stderr(bytes) => status@ == StatusView::Stderr(bytes@),
        },
{
}

} // verus!
