//! The text display: a few lines for the tasks that run, under the messages that
//! stay on the terminal.

use vstd::prelude::*;
use vstd::string::*;
use vstd::utf8::*;

use crate::status::{Status, StatusView};
use crate::text;

verus! {

/// How many tasks are shown at a time.
pub const MAX_VISIBLE: usize = 4;

/// A display stopped at a fatal message.
#[derive(Debug, PartialEq, Eq, Structural)]
pub struct Stopped;

impl Stopped {
    /// The message for the error. It is empty: the fatal message has been shown, and
    /// there is nothing to add to it.
    pub fn message(&self) -> (r: String)
        ensures
            r@ == Seq::<char>::empty(),
    {
        String::new()
    }
}

/// What the task lines show: the messages of the tasks that are visible, one slot
/// each, and a line that counts the others.
#[derive(Debug)]
pub struct Frame {
    pub slots: Vec<Option<String>>,
    pub overflow: Option<String>,
}

/// The contents of a [`Frame`].
pub struct FrameView {
    pub slots: Seq<Option<Seq<char>>>,
    pub overflow: Option<Seq<char>>,
}

impl View for Frame {
    type V = FrameView;

    open spec fn view(&self) -> FrameView {
        FrameView {
            slots: self.slots@.map_values(|s: Option<String>| text::option_view(s)),
            overflow: text::option_view(self.overflow),
        }
    }
}

/// Something for the terminal to do.
#[derive(Debug)]
pub enum Effect {
    /// Draw the task lines anew.
    Refresh(Frame),
    /// Print a line above the task lines.
    Print(String),
    /// Print a line to the standard output.
    Output(String),
}

/// What an [`Effect`] shows.
pub enum EffectView {
    Refresh(FrameView),
    Print(Seq<char>),
    Output(Seq<char>),
}

impl View for Effect {
    type V = EffectView;

    open spec fn view(&self) -> EffectView {
        match self {
            Effect::Refresh(frame) => EffectView::Refresh(frame@),
            Effect::Print(line) => EffectView::Print(line@),
            Effect::Output(line) => EffectView::Output(line@),
        }
    }
}

/// What the effects in `v` show.
pub open spec fn effect_views(v: Seq<Effect>) -> Seq<EffectView> {
    v.map_values(|e: Effect| e@)
}

/// A task as the display knows it: its key, and the message that it shows.
pub type TaskView = (Seq<char>, Seq<char>);

/// The queue after the task `key` showed another message. Where several tasks have
/// the key, the one that began first does; where none has it, nothing changes.
pub open spec fn updated(queue: Seq<TaskView>, key: Seq<char>, msg: Seq<char>) -> Seq<TaskView>
    decreases queue.len(),
{
    if queue.len() == 0 {
        queue
    } else if queue[0].0 == key {
        queue.update(0, (key, msg))
    } else {
        seq![queue[0]] + updated(queue.drop_first(), key, msg)
    }
}

/// Whether a task in the queue has the key.
pub open spec fn has_task(queue: Seq<TaskView>, key: Seq<char>) -> bool {
    exists|i: int| 0 <= i < queue.len() && (#[trigger] queue[i]).0 == key
}

/// The queue without the tasks that have the key.
pub open spec fn removed(queue: Seq<TaskView>, key: Seq<char>) -> Seq<TaskView> {
    queue.filter(|t: TaskView| t.0 != key)
}

/// The line that counts the tasks that are not shown.
pub open spec fn overflow_line(hidden: nat) -> Seq<char> {
    "and "@ + text::decimal(hidden) + " more..."@
}

/// What the task lines show for a queue: the first tasks, in order, and the number
/// of the others if there are any.
pub open spec fn frame_of(queue: Seq<TaskView>) -> FrameView {
    FrameView {
        slots: Seq::new(
            MAX_VISIBLE as nat,
            |i: int|
                if i < queue.len() {
                    Some(queue[i].1)
                } else {
                    None
                },
        ),
        overflow: if queue.len() > MAX_VISIBLE {
            Some(overflow_line((queue.len() - MAX_VISIBLE) as nat))
        } else {
            None
        },
    }
}

/// The lines of a tool's output, each to be printed; output that is not UTF-8 is
/// dropped.
pub open spec fn printed(bytes: Seq<u8>) -> Seq<EffectView> {
    if valid_utf8(bytes) {
        text::lines_of(decode_utf8(bytes)).map_values(|line: Seq<char>| EffectView::Print(line))
    } else {
        Seq::empty()
    }
}

/// The state of a [`ProgressDisplay`].
#[verifier::ext_equal]
pub struct ProgressView {
    pub queue: Seq<TaskView>,
    pub stopped: bool,
}

impl ProgressView {
    /// A display that has been told nothing.
    pub open spec fn start() -> ProgressView {
        ProgressView { queue: Seq::empty(), stopped: false }
    }

    /// The display after it was told `status`.
    pub open spec fn after(self, status: StatusView) -> ProgressView {
        if self.stopped {
            self
        } else {
            match status {
                StatusView::Begin { key, msg } => ProgressView {
                    queue: self.queue.push((key, msg)),
                    ..self
                },
                StatusView::Update { key, msg } => ProgressView {
                    queue: updated(self.queue, key, msg),
                    ..self
                },
                StatusView::End { key, .. } => ProgressView {
                    queue: removed(self.queue, key),
                    ..self
                },
                StatusView::Clear => ProgressView { queue: Seq::empty(), ..self },
                StatusView::Fatal(_) => ProgressView { stopped: true, ..self },
                _ => self,
            }
        }
    }

    /// What the display does when it is told `status`.
    pub open spec fn effects(self, status: StatusView) -> Seq<EffectView> {
        let refresh = EffectView::Refresh(frame_of(self.after(status).queue));
        if self.stopped {
            Seq::empty()
        } else {
            match status {
                StatusView::Begin { .. } => seq![refresh],
                StatusView::Update { key, .. } => if has_task(self.queue, key) {
                    seq![refresh]
                } else {
                    Seq::empty()
                },
                StatusView::End { msg, .. } => match msg {
                    Some(m) => seq![refresh, EffectView::Print(m)],
                    None => seq![refresh],
                },
                StatusView::Clear => seq![refresh],
                StatusView::Fatal(msg) => seq![EffectView::Print(msg)],
                StatusView::Log(msg) => seq![EffectView::Print(msg)],
                StatusView::Stdout(bytes) => printed(bytes),
                StatusView::Stderr(bytes) => printed(bytes),
            }
        }
    }
}

/// The tasks that run, in the order in which they began, and whether a fatal message
/// stopped the display.
#[derive(Debug)]
pub struct ProgressDisplay {
    queue: Vec<(String, String)>,
    stopped: bool,
}

/// What a queue of tasks holds.
spec fn task_views(queue: Seq<(String, String)>) -> Seq<TaskView> {
    queue.map_values(|t: (String, String)| (t.0@, t.1@))
}

impl View for ProgressDisplay {
    type V = ProgressView;

    closed spec fn view(&self) -> ProgressView {
        ProgressView { queue: task_views(self.queue@), stopped: self.stopped }
    }
}

proof fn filter_push(queue: Seq<TaskView>, task: TaskView, key: Seq<char>)
    ensures
        removed(queue.push(task), key) == (if task.0 != key {
            removed(queue, key).push(task)
        } else {
            removed(queue, key)
        }),
{
    reveal(Seq::filter);
    assert(queue.push(task).drop_last() =~= queue);
}

proof fn updated_at(queue: Seq<TaskView>, key: Seq<char>, msg: Seq<char>, at: int)
    requires
        0 <= at <= queue.len(),
        at < queue.len() ==> queue[at].0 == key,
        forall|i: int| 0 <= i < at ==> (#[trigger] queue[i]).0 != key,
    ensures
        updated(queue, key, msg) == (if at < queue.len() {
            queue.update(at, (key, msg))
        } else {
            queue
        }),
    decreases queue.len(),
{
    if queue.len() > 0 && at > 0 {
        let rest = queue.drop_first();
        assert forall|i: int| 0 <= i < at - 1 implies (#[trigger] rest[i]).0 != key by {
            assert(rest[i] == queue[i + 1]);
        }
        updated_at(rest, key, msg, at - 1);
        assert(seq![queue[0]] + rest =~= queue);
        if at < queue.len() {
            assert(seq![queue[0]] + rest.update(at - 1, (key, msg)) =~= queue.update(
                at,
                (key, msg),
            ));
        }
    }
}

impl ProgressDisplay {
    /// A display with no task.
    pub fn new() -> (r: ProgressDisplay)
        ensures
            r@ == ProgressView::start(),
    {
        let queue: Vec<(String, String)> = Vec::new();
        assert(task_views(queue@) =~= Seq::empty());
        ProgressDisplay { queue, stopped: false }
    }

    /// Takes note of a message, and says what the terminal has to do about it, in
    /// order. After a fatal message nothing happens any more.
    pub fn handle(&mut self, status: Status) -> (r: Vec<Effect>)
        ensures
            final(self)@ == old(self)@.after(status@),
            effect_views(r@) == old(self)@.effects(status@),
    {
        let mut effects: Vec<Effect> = Vec::new();
        assert(effect_views(effects@) =~= Seq::empty());
        if self.stopped {
            return effects;
        }
        match status {
            Status::Begin { key, msg } => {
                effects.push(Effect::Refresh(self.push(key, msg)));
            },
            Status::Update { key, msg } => {
                if self.replace(key, msg) {
                    effects.push(Effect::Refresh(self.refresh()));
                }
            },
            Status::End { key, msg } => {
                effects.push(Effect::Refresh(self.remove(key.as_str())));
                if let Some(m) = msg {
                    effects.push(Effect::Print(m));
                }
            },
            Status::Clear => {
                self.queue = Vec::new();
                assert(task_views(self.queue@) =~= Seq::empty());
                effects.push(Effect::Refresh(self.refresh()));
            },
            Status::Fatal(msg) => {
                effects.push(Effect::Print(msg));
                self.stopped = true;
            },
            Status::Log(msg) => {
                effects.push(Effect::Print(msg));
            },
            Status::Stdout(bytes) => {
                effects = print_lines(bytes);
            },
            Status::Stderr(bytes) => {
                effects = print_lines(bytes);
            },
        }
        assert(effect_views(effects@) =~= old(self)@.effects(status@));
        effects
    }

    /// Puts a task at the end of the queue.
    fn push(&mut self, key: String, msg: String) -> (r: Frame)
        ensures
            final(self)@.queue == old(self)@.queue.push((key@, msg@)),
            final(self)@.stopped == old(self)@.stopped,
            r@ == frame_of(final(self)@.queue),
    {
        let ghost before = task_views(self.queue@);
        let ghost task = (key@, msg@);
        self.queue.push((key, msg));
        assert(task_views(self.queue@) =~= before.push(task));
        self.refresh()
    }

    /// Gives the task `key` another message; says whether there is such a task.
    fn replace(&mut self, key: String, msg: String) -> (r: bool)
        ensures
            final(self)@.queue == updated(old(self)@.queue, key@, msg@),
            final(self)@.stopped == old(self)@.stopped,
            r == has_task(old(self)@.queue, key@),
    {
        let ghost before = task_views(self.queue@);
        let ghost shown = msg@;
        let mut i: usize = 0;
        while i < self.queue.len()
            invariant
                i <= self.queue@.len(),
                task_views(self.queue@) == before,
                before == old(self)@.queue,
                self.stopped == old(self).stopped,
                shown == msg@,
                forall|j: int| 0 <= j < i ==> (#[trigger] before[j]).0 != key@,
            decreases self.queue@.len() - i,
        {
            assert(before[i as int].0 == self.queue@[i as int].0@);
            if self.queue[i].0 == key {
                proof {
                    updated_at(before, key@, shown, i as int);
                }
                self.queue.set(i, (key, msg));
                assert(task_views(self.queue@) =~= before.update(i as int, (key@, shown)));
                return true;
            }
            i = i + 1;
        }
        proof {
            updated_at(before, key@, shown, before.len() as int);
        }
        false
    }

    /// Takes the tasks with the given key out of the queue.
    fn remove(&mut self, key: &str) -> (r: Frame)
        ensures
            final(self)@.queue == removed(old(self)@.queue, key@),
            final(self)@.stopped == old(self)@.stopped,
            r@ == frame_of(final(self)@.queue),
    {
        let mut tasks: Vec<(String, String)> = Vec::new();
        std::mem::swap(&mut tasks, &mut self.queue);
        let ghost all = task_views(tasks@);
        let unwanted: String = key.to_owned();
        let mut i: usize = 0;
        proof {
            reveal(Seq::filter);
            assert(task_views(self.queue@) =~= Seq::empty());
            assert(all.take(0) =~= Seq::empty());
        }
        while i < tasks.len()
            invariant
                i <= tasks@.len(),
                all == task_views(tasks@),
                unwanted@ == key@,
                self.stopped == old(self).stopped,
                task_views(self.queue@) == removed(all.take(i as int), key@),
            decreases tasks@.len() - i,
        {
            let ghost kept = task_views(self.queue@);
            let ghost task = all[i as int];
            proof {
                filter_push(all.take(i as int), task, key@);
                assert(all.take(i as int).push(task) =~= all.take(i as int + 1));
            }
            if tasks[i].0 != unwanted {
                self.queue.push((tasks[i].0.clone(), tasks[i].1.clone()));
                assert(task_views(self.queue@) =~= kept.push(task));
            }
            i = i + 1;
        }
        assert(all.take(all.len() as int) =~= all);
        self.refresh()
    }

    /// What the task lines show now.
    pub fn refresh(&self) -> (r: Frame)
        ensures
            r@ == frame_of(self@.queue),
    {
        let mut slots: Vec<Option<String>> = Vec::new();
        let mut i: usize = 0;
        while i < MAX_VISIBLE
            invariant
                i <= MAX_VISIBLE,
                slots@.len() == i,
                forall|j: int|
                    0 <= j < i ==> text::option_view(#[trigger] slots@[j]) == frame_of(
                        self@.queue,
                    ).slots[j],
            decreases MAX_VISIBLE - i,
        {
            if i < self.queue.len() {
                slots.push(Some(self.queue[i].1.clone()));
            } else {
                slots.push(None);
            }
            i = i + 1;
        }
        let hidden: usize = if self.queue.len() > MAX_VISIBLE {
            self.queue.len() - MAX_VISIBLE
        } else {
            0
        };
        let overflow: Option<String> = if hidden > 0 {
            Some("and ".to_owned().concat(text::decimal_text(hidden).as_str()).concat(" more..."))
        } else {
            None
        };
        let frame: Frame = Frame { slots, overflow };
        assert(frame@.slots =~= frame_of(self@.queue).slots);
        frame
    }

    /// How the display came out: badly, if a fatal message stopped it.
    pub fn finish(self) -> (r: Result<(), Stopped>)
        ensures
            r == (if self@.stopped {
                Err::<(), Stopped>(Stopped)
            } else {
                Ok::<(), Stopped>(())
            }),
    {
        if self.stopped {
            Err(Stopped)
        } else {
            Ok(())
        }
    }
}

/// The lines of a tool's output, each to be printed.
fn print_lines(bytes: Vec<u8>) -> (r: Vec<Effect>)
    ensures
        effect_views(r@) == printed(bytes@),
{
    let mut effects: Vec<Effect> = Vec::new();
    if let Some(s) = text::utf8_text(bytes) {
        let all: Vec<String> = text::lines(s.as_str());
        let mut i: usize = 0;
        while i < all.len()
            invariant
                i <= all@.len(),
                effects@.len() == i,
                forall|j: int|
                    0 <= j < i ==> (#[trigger] effects@[j])@ == EffectView::Print(all@[j]@),
            decreases all@.len() - i,
        {
            effects.push(Effect::Print(all[i].clone()));
            i = i + 1;
        }
        assert forall|j: int| 0 <= j < all@.len() implies text::views(all@)[j] == all@[j]@ by {}
    }
    assert(effect_views(effects@) =~= printed(bytes@));
    effects
}

/// Effects are seen whole, each in its own place, and so are the task lines.
pub proof fn effects_are_seen_whole(v: Seq<Effect>, effect: Effect, frame: Frame)
    ensures
        effect_views(v).len() == v.len(),
        forall|i: int| 0 <= i < v.len() ==> (#[trigger] effect_views(v)[i]) == v[i]@,
        match effect {
            Effect::Refresh(shown) => effect@ == EffectView::Refresh(shown@),
            Effect::Print(line) => effect@ == EffectView::Print(line@),
            Effect::Output(line) => effect@ == EffectView::Output(line@),
        },
        frame@.slots.len() == frame.slots@.len(),
        forall|i: int|
            0 <= i < frame.slots@.len() ==> (#[trigger] frame@.slots[i]) == text::option_view(
                frame.slots@[i],
            ),
        frame@.overflow == text::option_view(frame.overflow),
{
}

} // verus!
