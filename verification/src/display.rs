//! A display of either format, and what holds of the displays whatever they are
//! told.

use vstd::prelude::*;
use vstd::utf8::*;

use crate::json::{JsonDisplay, JsonView};
use crate::progress::{
    self, Effect, EffectView, FrameView, ProgressDisplay, ProgressView, Stopped, TaskView,
    MAX_VISIBLE,
};
use crate::status::{self, OutputFormat, Status, StatusView};
use crate::text;

verus! {

/// The display of a run of the build.
#[derive(Debug)]
pub enum Display {
    Text(ProgressDisplay),
    Json(JsonDisplay),
}

/// The state of a [`Display`].
pub enum DisplayView {
    Text(ProgressView),
    Json(JsonView),
}

impl View for Display {
    type V = DisplayView;

    open spec fn view(&self) -> DisplayView {
        match self {
            Display::Text(display) => DisplayView::Text(display@),
            Display::Json(display) => DisplayView::Json(display@),
        }
    }
}

impl DisplayView {
    /// A display of the given format that has been told nothing.
    pub open spec fn start(format: OutputFormat) -> DisplayView {
        match format {
            OutputFormat::Text => DisplayView::Text(ProgressView::start()),
            OutputFormat::Json => DisplayView::Json(JsonView::start()),
        }
    }

    /// The display after it was told `status`.
    pub open spec fn after(self, status: StatusView) -> DisplayView {
        match self {
            DisplayView::Text(display) => DisplayView::Text(display.after(status)),
            DisplayView::Json(display) => DisplayView::Json(display.after(status)),
        }
    }

    /// What the display does when it is told `status`.
    pub open spec fn effects(self, status: StatusView) -> Seq<EffectView> {
        match self {
            DisplayView::Text(display) => display.effects(status),
            DisplayView::Json(display) => match display.line(status) {
                Some(line) => seq![EffectView::Output(line)],
                None => Seq::empty(),
            },
        }
    }

    /// Whether a fatal message stopped the display.
    pub open spec fn stopped(self) -> bool {
        match self {
            DisplayView::Text(display) => display.stopped,
            DisplayView::Json(display) => display.stopped,
        }
    }

    /// The display after it was told all of `statuses`, in order.
    pub open spec fn after_all(self, statuses: Seq<StatusView>) -> DisplayView
        decreases statuses.len(),
    {
        if statuses.len() == 0 {
            self
        } else {
            self.after_all(statuses.drop_last()).after(statuses.last())
        }
    }

    /// All that the display does when it is told `statuses`, in order.
    pub open spec fn all_effects(self, statuses: Seq<StatusView>) -> Seq<EffectView>
        decreases statuses.len(),
    {
        if statuses.len() == 0 {
            Seq::empty()
        } else {
            self.all_effects(statuses.drop_last()) + self.after_all(statuses.drop_last()).effects(
                statuses.last(),
            )
        }
    }
}

impl Display {
    /// A display of the given format.
    pub fn new(format: OutputFormat) -> (r: Display)
        ensures
            r@ == DisplayView::start(format),
    {
        match format {
            OutputFormat::Text => Display::Text(ProgressDisplay::new()),
            OutputFormat::Json => Display::Json(JsonDisplay::new()),
        }
    }

    /// Takes note of a message, and says what there is to do about it, in order.
    pub fn handle(&mut self, status: Status) -> (r: Vec<Effect>)
        ensures
            final(self)@ == old(self)@.after(status@),
            progress::effect_views(r@) == old(self)@.effects(status@),
    {
        match self {
            Display::Text(display) => display.handle(status),
            Display::Json(display) => {
                let ghost before = display@;
                let mut effects: Vec<Effect> = Vec::new();
                if let Some(line) = display.handle(status) {
                    effects.push(Effect::Output(line));
                }
                assert(progress::effect_views(effects@) =~= DisplayView::Json(before).effects(
                    status@,
                ));
                effects
            },
        }
    }

    /// How the display came out: badly, if a fatal message stopped it.
    pub fn finish(self) -> (r: Result<(), Stopped>)
        ensures
            r == (if self@.stopped() {
                Err::<(), Stopped>(Stopped)
            } else {
                Ok::<(), Stopped>(())
            }),
    {
        match self {
            Display::Text(display) => display.finish(),
            Display::Json(display) => display.finish(),
        }
    }
}

/// A display that a fatal message stopped shows nothing more and stays as it is.
pub proof fn stopped_display_is_silent(display: DisplayView, status: StatusView)
    requires
        display.stopped(),
    ensures
        display.after(status) == display,
        display.effects(status) == Seq::<EffectView>::empty(),
{
}

/// A display comes out badly if and only if one of the messages was fatal; what the
/// format is makes no difference.
pub proof fn stopped_by_a_fatal_message(format: OutputFormat, statuses: Seq<StatusView>)
    ensures
        DisplayView::start(format).after_all(statuses).stopped() <==> exists|i: int|
            0 <= i < statuses.len() && (#[trigger] statuses[i]) is Fatal,
    decreases statuses.len(),
{
    if statuses.len() > 0 {
        let before = statuses.drop_last();
        stopped_by_a_fatal_message(format, before);
        assert(statuses.last() == statuses[statuses.len() - 1]);
        if exists|i: int| 0 <= i < statuses.len() && (#[trigger] statuses[i]) is Fatal {
            let i = choose|i: int| 0 <= i < statuses.len() && (#[trigger] statuses[i]) is Fatal;
            if i < before.len() {
                assert(before[i] is Fatal);
            }
        }
        if DisplayView::start(format).after_all(before).stopped() {
            let i = choose|i: int| 0 <= i < before.len() && (#[trigger] before[i]) is Fatal;
            assert(statuses[i] is Fatal);
        }
    }
}

/// Messages after a fatal one have no effect: told `before`, a fatal message and
/// `rest`, a display has done what it does without `rest`.
pub proof fn nothing_follows_a_fatal_message(
    display: DisplayView,
    before: Seq<StatusView>,
    msg: Seq<char>,
    rest: Seq<StatusView>,
)
    ensures
        display.after_all(before.push(StatusView::Fatal(msg)) + rest) == display.after_all(
            before.push(StatusView::Fatal(msg)),
        ),
        display.all_effects(before.push(StatusView::Fatal(msg)) + rest) == display.all_effects(
            before.push(StatusView::Fatal(msg)),
        ),
    decreases rest.len(),
{
    let fatal = before.push(StatusView::Fatal(msg));
    assert(fatal.drop_last() =~= before);
    if rest.len() > 0 {
        assert((fatal + rest).drop_last() =~= fatal + rest.drop_last());
        nothing_follows_a_fatal_message(display, before, msg, rest.drop_last());
        stopped_display_is_silent(display.after_all(fatal), rest.last());
        assert(display.all_effects(fatal) + Seq::<EffectView>::empty() =~= display.all_effects(
            fatal,
        ));
    } else {
        assert(fatal + rest =~= fatal);
    }
}

proof fn removed_is_other_tasks(queue: Seq<TaskView>, key: Seq<char>)
    ensures
        forall|i: int|
            0 <= i < progress::removed(queue, key).len() ==> (#[trigger] progress::removed(
                queue,
                key,
            )[i]).0 != key,
        !progress::has_task(queue, key) ==> progress::removed(queue, key) == queue,
    decreases queue.len(),
{
    reveal(Seq::filter);
    if queue.len() > 0 {
        removed_is_other_tasks(queue.drop_last(), key);
        if !progress::has_task(queue, key) {
            assert(!progress::has_task(queue.drop_last(), key)) by {
                if progress::has_task(queue.drop_last(), key) {
                    let i = choose|i: int|
                        0 <= i < queue.drop_last().len() && (#[trigger] queue.drop_last()[i]).0
                            == key;
                    assert(queue[i].0 == key);
                }
            }
            assert(queue[queue.len() - 1].0 != key);
            assert(queue.drop_last().push(queue.last()) =~= queue);
        }
    }
}

/// After a task has ended no task in the queue has its key.
pub proof fn ended_task_is_gone(
    display: ProgressView,
    key: Seq<char>,
    msg: Option<Seq<char>>,
)
    requires
        !display.stopped,
    ensures
        !progress::has_task(display.after(StatusView::End { key, msg }).queue, key),
{
    removed_is_other_tasks(display.queue, key);
}

/// The end of a task leaves the tasks with other keys in the queue, as they were and
/// in the same order.
pub proof fn end_keeps_other_tasks(queue: Seq<TaskView>, key: Seq<char>, other: Seq<char>)
    requires
        other != key,
    ensures
        progress::removed(queue, key).filter(|t: TaskView| t.0 == other) == queue.filter(
            |t: TaskView| t.0 == other,
        ),
    decreases queue.len(),
{
    reveal(Seq::filter);
    if queue.len() > 0 {
        end_keeps_other_tasks(queue.drop_last(), key, other);
        let kept = progress::removed(queue.drop_last(), key);
        assert(kept.push(queue.last()).drop_last() =~= kept);
    }
}

/// A task that began and ended has left nothing in the queue, provided that no task
/// had its key before.
pub proof fn finished_task_leaves_no_trace(
    display: ProgressView,
    key: Seq<char>,
    msg: Seq<char>,
    last: Option<Seq<char>>,
)
    requires
        !progress::has_task(display.queue, key),
    ensures
        display.after(StatusView::Begin { key, msg }).after(StatusView::End { key, msg: last })
            == display,
{
    reveal(Seq::filter);
    removed_is_other_tasks(display.queue, key);
    assert(display.queue.push((key, msg)).drop_last() =~= display.queue);
    assert(display.after(StatusView::Begin { key, msg }).after(
        StatusView::End { key, msg: last },
    ) =~= display);
}

/// Resolving an artifact and downloading it, one after the other or one within the
/// other, leaves the queue as it was.
pub proof fn artifact_leaves_no_trace(
    display: ProgressView,
    coord: Seq<char>,
    resolving: Seq<char>,
    downloading: Seq<char>,
)
    requires
        !progress::has_task(display.queue, status::resolve_key(coord)),
        !progress::has_task(display.queue, status::download_key(coord)),
    ensures
        display.after(
            StatusView::Begin { key: status::resolve_key(coord), msg: resolving },
        ).after(StatusView::Begin { key: status::download_key(coord), msg: downloading }).after(
            StatusView::End { key: status::download_key(coord), msg: None },
        ).after(StatusView::End { key: status::resolve_key(coord), msg: None }) == display,
        display.after(
            StatusView::Begin { key: status::resolve_key(coord), msg: resolving },
        ).after(StatusView::End { key: status::resolve_key(coord), msg: None }).after(
            StatusView::Begin { key: status::download_key(coord), msg: downloading },
        ).after(StatusView::End { key: status::download_key(coord), msg: None }) == display,
{
    let outer = status::resolve_key(coord);
    let inner = status::download_key(coord);
    status::artifact_tasks_have_their_own_keys(coord, coord);
    let begun = display.after(StatusView::Begin { key: outer, msg: resolving });
    assert(!progress::has_task(begun.queue, inner)) by {
        if progress::has_task(begun.queue, inner) {
            let i = choose|i: int|
                0 <= i < begun.queue.len() && (#[trigger] begun.queue[i]).0 == inner;
            if i < display.queue.len() {
                assert(display.queue[i].0 == inner);
            }
        }
    }
    finished_task_leaves_no_trace(begun, inner, downloading, None);
    finished_task_leaves_no_trace(display, outer, resolving, None);
    finished_task_leaves_no_trace(display, inner, downloading, None);
}

/// A task that shows another message keeps its place, and so do all the others: the
/// keys stay as they are, the first task of the key gets the message, and no other
/// message changes.
pub proof fn update_keeps_places(queue: Seq<TaskView>, key: Seq<char>, msg: Seq<char>)
    ensures
        progress::updated(queue, key, msg).len() == queue.len(),
        forall|i: int|
            0 <= i < queue.len() ==> (#[trigger] progress::updated(queue, key, msg)[i]).0
                == queue[i].0,
        forall|i: int|
            0 <= i < queue.len() && (queue[i].0 != key || exists|j: int|
                0 <= j < i && (#[trigger] queue[j]).0 == key) ==> (
            #[trigger] progress::updated(queue, key, msg)[i]) == queue[i],
        forall|i: int|
            0 <= i < queue.len() && queue[i].0 == key && (forall|j: int|
                0 <= j < i ==> (#[trigger] queue[j]).0 != key) ==> (
            #[trigger] progress::updated(queue, key, msg)[i]) == (key, msg),
    decreases queue.len(),
{
    if queue.len() > 0 && queue[0].0 != key {
        let rest = queue.drop_first();
        update_keeps_places(rest, key, msg);
        assert forall|i: int| 0 <= i < queue.len() implies (
            #[trigger] progress::updated(queue, key, msg)[i]).0 == queue[i].0 by {
            if i > 0 {
                assert(progress::updated(queue, key, msg)[i] == progress::updated(rest, key, msg)[i
                    - 1]);
            }
        }
        assert forall|i: int|
            0 <= i < queue.len() && (queue[i].0 != key || exists|j: int|
                0 <= j < i && (#[trigger] queue[j]).0 == key) implies (
            #[trigger] progress::updated(queue, key, msg)[i]) == queue[i] by {
            if i > 0 {
                assert(progress::updated(queue, key, msg)[i] == progress::updated(rest, key, msg)[i
                    - 1]);
                if queue[i].0 == key {
                    let j = choose|j: int| 0 <= j < i && (#[trigger] queue[j]).0 == key;
                    assert(rest[j - 1].0 == key);
                }
            }
        }
        assert forall|i: int|
            0 <= i < queue.len() && queue[i].0 == key && (forall|j: int|
                0 <= j < i ==> (#[trigger] queue[j]).0 != key) implies (
            #[trigger] progress::updated(queue, key, msg)[i]) == (key, msg) by {
            assert(progress::updated(queue, key, msg)[i] == progress::updated(rest, key, msg)[i
                - 1]);
            assert forall|j: int| 0 <= j < i - 1 implies (#[trigger] rest[j]).0 != key by {
                assert(rest[j] == queue[j + 1]);
            }
        }
    }
}

/// The task lines account for every task: the first ones are shown, each in its own
/// slot and in order, and the line below them is there exactly where tasks are left,
/// and counts those.
pub proof fn frame_accounts_for_every_task(queue: Seq<TaskView>)
    ensures
        progress::frame_of(queue).slots.len() == MAX_VISIBLE,
        forall|i: int|
            0 <= i < MAX_VISIBLE ==> (#[trigger] progress::frame_of(queue).slots[i]) == (if i
                < queue.len() {
                Some(queue[i].1)
            } else {
                None
            }),
        progress::frame_of(queue).overflow is Some <==> queue.len() > MAX_VISIBLE,
        forall|hidden: nat|
            queue.len() == MAX_VISIBLE + hidden && hidden > 0
                ==> progress::frame_of(queue).overflow == Some(
                #[trigger] progress::overflow_line(hidden),
            ),
{
}

/// The frame that a terminal shows after some effects, given what it showed before.
pub open spec fn shown_after(frame: FrameView, effects: Seq<EffectView>) -> FrameView
    decreases effects.len(),
{
    if effects.len() == 0 {
        frame
    } else {
        match effects.last() {
            EffectView::Refresh(new) => new,
            _ => shown_after(frame, effects.drop_last()),
        }
    }
}

/// The lines that some effects print above the task lines, in order.
pub open spec fn printed_by(effects: Seq<EffectView>) -> Seq<Seq<char>>
    decreases effects.len(),
{
    if effects.len() == 0 {
        Seq::empty()
    } else {
        match effects.last() {
            EffectView::Print(line) => printed_by(effects.drop_last()).push(line),
            _ => printed_by(effects.drop_last()),
        }
    }
}

proof fn effects_one_after_the_other(frame: FrameView, a: Seq<EffectView>, b: Seq<EffectView>)
    ensures
        shown_after(frame, a + b) == shown_after(shown_after(frame, a), b),
        printed_by(a + b) == printed_by(a) + printed_by(b),
    decreases b.len(),
{
    if b.len() == 0 {
        assert(a + b =~= a);
        assert(printed_by(a) + Seq::<Seq<char>>::empty() =~= printed_by(a));
    } else {
        assert((a + b).drop_last() =~= a + b.drop_last());
        effects_one_after_the_other(frame, a, b.drop_last());
        assert(printed_by(a + b) =~= printed_by(a) + printed_by(b));
    }
}

proof fn prints_alone(frame: FrameView, effects: Seq<EffectView>, lines: Seq<Seq<char>>)
    requires
        effects.len() == lines.len(),
        forall|i: int| 0 <= i < lines.len() ==> effects[i] == EffectView::Print(#[trigger] lines[i]),
    ensures
        shown_after(frame, effects) == frame,
        printed_by(effects) == lines,
    decreases effects.len(),
{
    if effects.len() > 0 {
        assert(effects.last() == EffectView::Print(lines[lines.len() - 1]));
        prints_alone(frame, effects.drop_last(), lines.drop_last());
        assert(lines.drop_last().push(lines.last()) =~= lines);
    } else {
        assert(lines =~= Seq::empty());
    }
}

/// A change of the tasks is shown at once: whenever a message changes the queue, the
/// task lines are drawn anew, for the queue as it is then; and whatever is drawn is
/// what the terminal should show.
pub proof fn changed_queue_is_drawn(display: ProgressView, status: StatusView)
    ensures
        display.after(status).queue != display.queue ==> display.effects(status).contains(
            EffectView::Refresh(progress::frame_of(display.after(status).queue)),
        ),
        forall|i: int|
            0 <= i < display.effects(status).len() ==> (
            #[trigger] display.effects(status)[i] matches EffectView::Refresh(frame) ==> frame
                == progress::frame_of(display.after(status).queue)),
        shown_after(progress::frame_of(display.queue), display.effects(status))
            == progress::frame_of(display.after(status).queue),
{
    reveal_with_fuel(shown_after, 3);
    let now = display.after(status).queue;
    let refresh = EffectView::Refresh(progress::frame_of(now));
    let effects = display.effects(status);
    if !display.stopped {
        match status {
            StatusView::Begin { .. } => {
                assert(effects[0] == refresh);
            },
            StatusView::Update { key, msg } => {
                if progress::has_task(display.queue, key) {
                    assert(effects[0] == refresh);
                } else {
                    unknown_task_is_not_updated(display.queue, key, msg);
                }
            },
            StatusView::End { msg, .. } => {
                assert(effects[0] == refresh);
                if msg is Some {
                    assert(effects.drop_last() =~= seq![refresh]);
                }
            },
            StatusView::Clear => {
                assert(effects[0] == refresh);
            },
            StatusView::Fatal(msg) => {
                assert(effects.drop_last() =~= Seq::empty());
            },
            StatusView::Log(msg) => {
                assert(effects.drop_last() =~= Seq::empty());
            },
            StatusView::Stdout(bytes) => {
                if valid_utf8(bytes) {
                    prints_alone(
                        progress::frame_of(now),
                        effects,
                        text::lines_of(decode_utf8(bytes)),
                    );
                }
            },
            StatusView::Stderr(bytes) => {
                if valid_utf8(bytes) {
                    prints_alone(
                        progress::frame_of(now),
                        effects,
                        text::lines_of(decode_utf8(bytes)),
                    );
                }
            },
        }
    }
}

proof fn unknown_task_is_not_updated(queue: Seq<TaskView>, key: Seq<char>, msg: Seq<char>)
    requires
        !progress::has_task(queue, key),
    ensures
        progress::updated(queue, key, msg) == queue,
{
    update_keeps_places(queue, key, msg);
    assert(progress::updated(queue, key, msg) =~= queue);
}

/// At any time the terminal shows the tasks that run: told any messages from the start,
/// the text display has last drawn the task lines for its queue.
pub proof fn terminal_shows_the_queue(statuses: Seq<StatusView>)
    ensures
        ({
            let begun = DisplayView::start(OutputFormat::Text);
            begun.after_all(statuses) matches DisplayView::Text(now) && shown_after(
                progress::frame_of(Seq::empty()),
                begun.all_effects(statuses),
            ) == progress::frame_of(now.queue)
        }),
    decreases statuses.len(),
{
    let begun = DisplayView::start(OutputFormat::Text);
    let empty = progress::frame_of(Seq::empty());
    if statuses.len() > 0 {
        let before = statuses.drop_last();
        terminal_shows_the_queue(before);
        if let DisplayView::Text(display) = begun.after_all(before) {
            changed_queue_is_drawn(display, statuses.last());
            effects_one_after_the_other(
                empty,
                begun.all_effects(before),
                display.effects(statuses.last()),
            );
        }
    }
}

/// What the text display prints for a message: the last message of a task that ends
/// with one, what is logged or fatal, and the lines of a tool's output if that is text.
/// Nothing else is printed, and nothing goes to the standard output.
pub proof fn what_is_printed(display: ProgressView, status: StatusView)
    requires
        !display.stopped,
    ensures
        printed_by(display.effects(status)) == (match status {
            StatusView::Begin { .. } => Seq::empty(),
            StatusView::Update { .. } => Seq::empty(),
            StatusView::End { msg: Some(msg), .. } => seq![msg],
            StatusView::End { msg: None, .. } => Seq::empty(),
            StatusView::Clear => Seq::empty(),
            StatusView::Fatal(msg) => seq![msg],
            StatusView::Log(msg) => seq![msg],
            StatusView::Stdout(bytes) => if valid_utf8(bytes) {
                text::lines_of(decode_utf8(bytes))
            } else {
                Seq::empty()
            },
            StatusView::Stderr(bytes) => if valid_utf8(bytes) {
                text::lines_of(decode_utf8(bytes))
            } else {
                Seq::empty()
            },
        }),
        forall|i: int|
            0 <= i < display.effects(status).len() ==> !((#[trigger] display.effects(
                status,
            )[i]) is Output),
{
    reveal_with_fuel(printed_by, 3);
    let refresh = EffectView::Refresh(progress::frame_of(display.after(status).queue));
    let effects = display.effects(status);
    match status {
        StatusView::End { msg: Some(msg), .. } => {
            assert(effects.drop_last() =~= seq![refresh]);
            assert(seq![refresh].drop_last() =~= Seq::empty());
            assert(printed_by(seq![refresh]) =~= Seq::empty());
            assert(printed_by(effects) =~= seq![msg]);
        },
        StatusView::Fatal(msg) => {
            assert(effects.drop_last() =~= Seq::empty());
            assert(printed_by(effects) =~= seq![msg]);
        },
        StatusView::Log(msg) => {
            assert(effects.drop_last() =~= Seq::empty());
            assert(printed_by(effects) =~= seq![msg]);
        },
        StatusView::Stdout(bytes) => {
            if valid_utf8(bytes) {
                prints_alone(
                    progress::frame_of(Seq::empty()),
                    effects,
                    text::lines_of(decode_utf8(bytes)),
                );
            }
        },
        StatusView::Stderr(bytes) => {
            if valid_utf8(bytes) {
                prints_alone(
                    progress::frame_of(Seq::empty()),
                    effects,
                    text::lines_of(decode_utf8(bytes)),
                );
            }
        },
        _ => {
            if effects.len() > 0 {
                assert(effects.drop_last() =~= Seq::empty());
            }
        },
    }
}

/// The task lines are drawn anew when a task begins or ends, when all are forgotten and
/// when a task that runs shows another message, once each time and before anything is
/// printed; no other message has them drawn.
pub proof fn when_the_lines_are_drawn(display: ProgressView, status: StatusView)
    requires
        !display.stopped,
    ensures
        ({
            let effects = display.effects(status);
            let drawn = status is Begin || status is End || status is Clear || (
            status matches StatusView::Update { key, .. } && exists|i: int|
                0 <= i < display.queue.len() && (#[trigger] display.queue[i]).0 == key);
            &&& drawn ==> effects.len() > 0 && effects[0] is Refresh
            &&& !drawn ==> forall|i: int|
                0 <= i < effects.len() ==> !((#[trigger] effects[i]) is Refresh)
            &&& forall|i: int| 0 < i < effects.len() ==> !((#[trigger] effects[i]) is Refresh)
        }),
{
}

/// What a message does to the tasks: a task that begins is put behind the others; a task
/// that shows another message, or ends, is found by its key; all are forgotten when the
/// display is cleared; no other message has anything to do with them.
pub proof fn what_becomes_of_the_tasks(display: ProgressView, status: StatusView)
    requires
        !display.stopped,
    ensures
        ({
            let before = display.queue;
            let after = display.after(status).queue;
            match status {
                StatusView::Begin { key, msg } => {
                    &&& after.len() == before.len() + 1
                    &&& after.last() == (key, msg)
                    &&& after.drop_last() == before
                },
                StatusView::Update { key, msg } => {
                    &&& after.len() == before.len()
                    &&& forall|i: int|
                        0 <= i < before.len() && before[i].0 == key && (forall|j: int|
                            0 <= j < i ==> (#[trigger] before[j]).0 != key) ==> (
                        #[trigger] after[i]) == (key, msg)
                    &&& forall|i: int|
                        0 <= i < before.len() && (before[i].0 != key || exists|j: int|
                            0 <= j < i && (#[trigger] before[j]).0 == key) ==> (
                        #[trigger] after[i]) == before[i]
                },
                StatusView::End { key, .. } => after == progress::removed(before, key),
                StatusView::Clear => after.len() == 0,
                _ => after == before,
            }
        }),
        display.after(status).stopped <==> status is Fatal,
{
    match status {
        StatusView::Begin { key, msg } => {
            assert(display.after(status).queue.drop_last() =~= display.queue);
        },
        StatusView::Update { key, msg } => {
            update_keeps_places(display.queue, key, msg);
        },
        _ => {},
    }
}

/// The tasks that are left when a key ends are those with other keys: ends take effect
/// part by part, leave a queue without the key as it is, and leave nothing of one in
/// which every task has it.
pub proof fn end_takes_effect_part_by_part(a: Seq<TaskView>, b: Seq<TaskView>, key: Seq<char>)
    ensures
        progress::removed(a + b, key) == progress::removed(a, key) + progress::removed(b, key),
        (forall|i: int| 0 <= i < a.len() ==> (#[trigger] a[i]).0 != key) ==> progress::removed(
            a,
            key,
        ) == a,
        (forall|i: int| 0 <= i < a.len() ==> (#[trigger] a[i]).0 == key) ==> progress::removed(
            a,
            key,
        ).len() == 0,
    decreases b.len(), a.len(),
{
    reveal(Seq::filter);
    removed_is_other_tasks(a, key);
    if b.len() > 0 {
        assert((a + b).drop_last() =~= a + b.drop_last());
        end_takes_effect_part_by_part(a, b.drop_last(), key);
        assert(progress::removed(a + b, key) =~= progress::removed(a, key) + progress::removed(
            b,
            key,
        ));
    } else {
        assert(a + b =~= a);
        assert(progress::removed(a, key) + progress::removed(b, key) =~= progress::removed(a, key));
        if a.len() > 0 && forall|i: int| 0 <= i < a.len() ==> (#[trigger] a[i]).0 == key {
            end_takes_effect_part_by_part(a.drop_last(), b, key);
            assert(a[a.len() - 1].0 == key);
        }
    }
}

/// The line below the task lines gives the number of the tasks that are not shown, in
/// decimal.
pub proof fn hidden_tasks_are_counted(queue: Seq<TaskView>)
    requires
        queue.len() > 4,
    ensures
        exists|digits: Seq<char>|
            text::writes(digits, queue.len() - 4) && progress::frame_of(queue).overflow == Some(
                #[trigger] ("and "@ + digits) + " more..."@,
            ),
        progress::frame_of(queue).slots.len() == 4,
{
    let hidden = (queue.len() - 4) as nat;
    text::decimal_stands_for_its_number(hidden);
    let digits = text::decimal(hidden);
    assert(progress::frame_of(queue).overflow == Some(("and "@ + digits) + " more..."@));
}

/// A display is of one format for good: a text display goes by the rules of the text
/// display, and a JSON display prints the line of each message to the standard output,
/// where it has one, and does nothing else.
pub proof fn display_keeps_to_its_format(
    format: OutputFormat,
    text: ProgressView,
    json: JsonView,
    status: StatusView,
)
    ensures
        DisplayView::start(format) is Text <==> format is Text,
        DisplayView::start(OutputFormat::Text) == DisplayView::Text(
            ProgressView { queue: Seq::empty(), stopped: false },
        ),
        DisplayView::start(OutputFormat::Json) == DisplayView::Json(JsonView { stopped: false }),
        DisplayView::Text(text).after(status) == DisplayView::Text(text.after(status)),
        DisplayView::Text(text).effects(status) == text.effects(status),
        DisplayView::Text(text).stopped() == text.stopped,
        DisplayView::Json(json).after(status) == DisplayView::Json(json.after(status)),
        DisplayView::Json(json).stopped() == json.stopped,
        json.line(status) matches Some(line) ==> DisplayView::Json(json).effects(status) == seq![
            EffectView::Output(line),
        ],
        json.line(status) is None ==> DisplayView::Json(json).effects(status).len() == 0,
        json.after(status).stopped <==> json.stopped || status is Fatal,
{
}

} // verus!
