//! The JSON display: one object per line for each message.

use vstd::prelude::*;
use vstd::string::*;

use crate::progress::Stopped;
use crate::status::{Status, StatusView};
use crate::text;

verus! {

/// A hexadecimal digit, in lower case.
pub open spec fn hex_digit(n: int) -> char {
    if n < 10 {
        ('0' as int + n) as char
    } else {
        ('a' as int + n - 10) as char
    }
}

/// How a character stands inside a JSON string.
pub open spec fn escaped(c: char) -> Seq<char> {
    if c == '"' || c == '\\' {
        seq!['\\', c]
    } else if c == '\u{8}' {
        seq!['\\', 'b']
    } else if c == '\u{9}' {
        seq!['\\', 't']
    } else if c == '\u{a}' {
        seq!['\\', 'n']
    } else if c == '\u{c}' {
        seq!['\\', 'f']
    } else if c == '\u{d}' {
        seq!['\\', 'r']
    } else if ' ' > c {
        seq!['\\', 'u', '0', '0', hex_digit(c as int / 16), hex_digit(c as int % 16)]
    } else {
        seq![c]
    }
}

/// The JSON string that holds the text `s`.
pub open spec fn json_string(s: Seq<char>) -> Seq<char> {
    seq!['"'] + s.map_values(|c: char| escaped(c)).flatten() + seq!['"']
}

/// The member of an object that gives `key` the string `value`.
pub open spec fn json_member(member: (Seq<char>, Seq<char>)) -> Seq<char> {
    json_string(member.0) + seq![':'] + json_string(member.1)
}

/// Members of an object, one after the other.
pub open spec fn json_members(members: Seq<(Seq<char>, Seq<char>)>) -> Seq<char>
    decreases members.len(),
{
    if members.len() == 0 {
        Seq::empty()
    } else if members.len() == 1 {
        json_member(members[0])
    } else {
        json_members(members.drop_last()) + seq![','] + json_member(members.last())
    }
}

/// The object with the given members, as compact JSON.
pub open spec fn json_object(members: Seq<(Seq<char>, Seq<char>)>) -> Seq<char> {
    seq!['{'] + json_members(members) + seq!['}']
}

/// What the members in `v` hold.
pub open spec fn member_views(v: Seq<(String, String)>) -> Seq<(Seq<char>, Seq<char>)> {
    v.map_values(|m: (String, String)| (m.0@, m.1@))
}

/// `Map::from_iter` and the `Display` of `Value` of serde_json: the members of an
/// object are written in the order of their keys, without white space, and the
/// strings in them are escaped as [`json_string`] says. The keys are to be given in
/// order already, told apart by their first characters.
#[verifier::external_body]
fn object_text(members: Vec<(String, String)>) -> (r: String)
    requires
        forall|i: int| 0 <= i < members@.len() ==> (#[trigger] members@[i]).0@.len() > 0,
        forall|i: int, j: int|
            0 <= i < j < members@.len() ==> (#[trigger] members@[i]).0@[0] < (
            #[trigger] members@[j]).0@[0],
    ensures
        r@ == json_object(member_views(members@)),
{
    let map: serde_json::Map<String, serde_json::Value> = members.into_iter().map(
        |m| (m.0, serde_json::Value::String(m.1)),
    ).collect();
    serde_json::Value::Object(map).to_string()
}

/// The line for an event of a task.
pub open spec fn task_line(event: Seq<char>, key: Seq<char>, msg: Seq<char>) -> Seq<char> {
    json_object(seq![("event"@, event), ("key"@, key), ("msg"@, msg)])
}

/// The line for an event of a task that comes without a message.
pub open spec fn bare_task_line(event: Seq<char>, key: Seq<char>) -> Seq<char> {
    json_object(seq![("event"@, event), ("key"@, key)])
}

/// The line for a message that belongs to no task.
pub open spec fn message_line(event: Seq<char>, msg: Seq<char>) -> Seq<char> {
    json_object(seq![("event"@, event), ("msg"@, msg)])
}

/// The line for what a tool wrote.
pub open spec fn output_line(event: Seq<char>, data: Seq<char>) -> Seq<char> {
    json_object(seq![("data"@, data), ("event"@, event)])
}

fn task_text(event: &str, key: String, msg: String) -> (r: String)
    ensures
        r@ == task_line(event@, key@, msg@),
{
    proof {
        reveal_strlit("event");
        reveal_strlit("key");
        reveal_strlit("msg");
    }
    let ghost members = seq![("event"@, event@), ("key"@, key@), ("msg"@, msg@)];
    let mut v: Vec<(String, String)> = Vec::new();
    v.push(("event".to_owned(), event.to_owned()));
    v.push(("key".to_owned(), key));
    v.push(("msg".to_owned(), msg));
    assert(member_views(v@) =~= members);
    object_text(v)
}

fn bare_task_text(event: &str, key: String) -> (r: String)
    ensures
        r@ == bare_task_line(event@, key@),
{
    proof {
        reveal_strlit("event");
        reveal_strlit("key");
    }
    let ghost members = seq![("event"@, event@), ("key"@, key@)];
    let mut v: Vec<(String, String)> = Vec::new();
    v.push(("event".to_owned(), event.to_owned()));
    v.push(("key".to_owned(), key));
    assert(member_views(v@) =~= members);
    object_text(v)
}

fn message_text(event: &str, msg: String) -> (r: String)
    ensures
        r@ == message_line(event@, msg@),
{
    proof {
        reveal_strlit("event");
        reveal_strlit("msg");
    }
    let ghost members = seq![("event"@, event@), ("msg"@, msg@)];
    let mut v: Vec<(String, String)> = Vec::new();
    v.push(("event".to_owned(), event.to_owned()));
    v.push(("msg".to_owned(), msg));
    assert(member_views(v@) =~= members);
    object_text(v)
}

/// The line for what a tool wrote, given as text.
pub fn output_text(event: &str, data: String) -> (r: String)
    ensures
        r@ == output_line(event@, data@),
{
    proof {
        reveal_strlit("data");
        reveal_strlit("event");
    }
    let ghost members = seq![("data"@, data@), ("event"@, event@)];
    let mut v: Vec<(String, String)> = Vec::new();
    v.push(("data".to_owned(), data));
    v.push(("event".to_owned(), event.to_owned()));
    assert(member_views(v@) =~= members);
    object_text(v)
}

/// The state of a [`JsonDisplay`].
pub struct JsonView {
    pub stopped: bool,
}

impl JsonView {
    /// A display that has been told nothing.
    pub open spec fn start() -> JsonView {
        JsonView { stopped: false }
    }

    /// The display after it was told `status`.
    pub open spec fn after(self, status: StatusView) -> JsonView {
        JsonView { stopped: self.stopped || status is Fatal }
    }

    /// The line that the display prints when it is told `status`, if any.
    pub open spec fn line(self, status: StatusView) -> Option<Seq<char>> {
        if self.stopped {
            None
        } else {
            match status {
                StatusView::Begin { key, msg } => Some(task_line("begin"@, key, msg)),
                StatusView::Update { key, msg } => Some(task_line("update"@, key, msg)),
                StatusView::End { key, msg } => match msg {
                    Some(m) => Some(task_line("end"@, key, m)),
                    None => Some(bare_task_line("end"@, key)),
                },
                StatusView::Clear => None,
                StatusView::Fatal(msg) => Some(message_line("fatal"@, msg)),
                StatusView::Log(msg) => if msg.len() == 0 {
                    None
                } else {
                    Some(message_line("log"@, msg))
                },
                StatusView::Stdout(bytes) => Some(output_line("stdout"@, text::utf8_lossy(bytes))),
                StatusView::Stderr(bytes) => Some(output_line("stderr"@, text::utf8_lossy(bytes))),
            }
        }
    }
}

/// Whether a fatal message stopped the display.
#[derive(Debug)]
pub struct JsonDisplay {
    stopped: bool,
}

impl View for JsonDisplay {
    type V = JsonView;

    closed spec fn view(&self) -> JsonView {
        JsonView { stopped: self.stopped }
    }
}

impl JsonDisplay {
    /// A display that has been told nothing.
    pub fn new() -> (r: JsonDisplay)
        ensures
            r@ == JsonView::start(),
    {
        JsonDisplay { stopped: false }
    }

    /// Takes note of a message, and gives the line to print for it, if there is one.
    /// After a fatal message nothing is printed any more.
    pub fn handle(&mut self, status: Status) -> (r: Option<String>)
        ensures
            final(self)@ == old(self)@.after(status@),
            match r {
                Some(line) => old(self)@.line(status@) == Some(line@),
                None => old(self)@.line(status@) is None,
            },
    {
        if self.stopped {
            return None;
        }
        match status {
            Status::Begin { key, msg } => Some(task_text("begin", key, msg)),
            Status::Update { key, msg } => Some(task_text("update", key, msg)),
            Status::End { key, msg } => match msg {
                Some(m) => Some(task_text("end", key, m)),
                None => Some(bare_task_text("end", key)),
            },
            Status::Clear => None,
            Status::Fatal(msg) => {
                self.stopped = true;
                Some(message_text("fatal", msg))
            },
            Status::Log(msg) => if msg.as_str().is_empty() {
                None
            } else {
                Some(message_text("log", msg))
            },
            Status::Stdout(bytes) => Some(output_text("stdout", text::utf8_lossy_text(&bytes))),
            Status::Stderr(bytes) => Some(output_text("stderr", text::utf8_lossy_text(&bytes))),
        }
    }

    /// How the display came out: badly, if a fatal message stopped it.
    pub fn finish(self) -> (r: Result<(), Stopped>)
        ensures
            r == (if self@.stopped {
                Err::<(), Stopped>(Stopped)
            } else {
                Ok::<(), Stopped>(())
            }),
    {
        if self.stopped {
            Err(Stopped)
        } else {
            Ok(())
        }
    }
}

/// Characters that do not break a line or control a terminal.
pub open spec fn no_controls(s: Seq<char>) -> bool {
    forall|i: int| 0 <= i < s.len() ==> ' ' <= #[trigger] s[i]
}

proof fn escaped_has_no_controls(s: Seq<Seq<char>>)
    requires
        forall|i: int| 0 <= i < s.len() ==> no_controls(#[trigger] s[i]),
    ensures
        no_controls(s.flatten()),
    decreases s.len(),
{
    if s.len() > 0 {
        let rest = s.drop_first();
        assert forall|i: int| 0 <= i < rest.len() implies no_controls(#[trigger] rest[i]) by {
            assert(rest[i] == s[i + 1]);
        }
        escaped_has_no_controls(rest);
        assert(no_controls(s[0]));
    }
}

proof fn escape_has_no_controls(c: char)
    ensures
        no_controls(escaped(c)),
{
    if ' ' > c {
        assert(0 <= c as int / 16 < 16 && 0 <= c as int % 16 < 16);
        assert(' ' <= hex_digit(c as int / 16));
        assert(' ' <= hex_digit(c as int % 16));
    }
}

proof fn json_string_has_no_controls(s: Seq<char>)
    ensures
        no_controls(json_string(s)),
{
    let parts = s.map_values(|c: char| escaped(c));
    assert forall|i: int| 0 <= i < parts.len() implies no_controls(#[trigger] parts[i]) by {
        escape_has_no_controls(s[i]);
    }
    escaped_has_no_controls(parts);
}

proof fn json_members_have_no_controls(members: Seq<(Seq<char>, Seq<char>)>)
    ensures
        no_controls(json_members(members)),
    decreases members.len(),
{
    if members.len() > 0 {
        json_string_has_no_controls(members.last().0);
        json_string_has_no_controls(members.last().1);
        json_members_have_no_controls(members.drop_last());
    }
}

/// Each object of the JSON display stands on a line of its own: whatever the messages
/// hold, a printed line holds no line feed, nor any other control character below the
/// space.
pub proof fn json_event_is_one_line(display: JsonView, status: StatusView)
    ensures
        display.line(status) matches Some(line) ==> no_controls(line) && !line.contains('\n'),
{
    if let Some(line) = display.line(status) {
        assert(exists|members: Seq<(Seq<char>, Seq<char>)>|
            line == #[trigger] json_object(members));
        let members = choose|members: Seq<(Seq<char>, Seq<char>)>|
            line == #[trigger] json_object(members);
        json_members_have_no_controls(members);
        assert(no_controls(line));
    }
}

/// The JSON display prints a line for every message until it is stopped, but for
/// [`Status::Clear`] and for empty log messages.
pub proof fn json_display_reports_everything(display: JsonView, status: StatusView)
    ensures
        display.line(status) is Some <==> !display.stopped && status != StatusView::Clear && status
            != StatusView::Log(Seq::empty()),
{
    if let StatusView::Log(msg) = status {
        if msg.len() == 0 {
            assert(msg =~= Seq::empty());
        }
    }
}

proof fn hex_digits_differ(m: int, n: int)
    requires
        0 <= m < 16,
        0 <= n < 16,
        hex_digit(m) == hex_digit(n),
    ensures
        m == n,
{
}

proof fn escapes_differ(c: char, d: char, x: Seq<char>, y: Seq<char>)
    requires
        escaped(c) + x == escaped(d) + y,
    ensures
        c == d,
        x == y,
{
    let whole = escaped(c) + x;
    let other = escaped(d) + y;
    assert(whole[0] == escaped(c)[0]);
    assert(other[0] == escaped(d)[0]);
    if escaped(c).len() > 1 && escaped(d).len() > 1 {
        assert(whole[1] == escaped(c)[1]);
        assert(other[1] == escaped(d)[1]);
        if escaped(c).len() == 6 && escaped(d).len() == 6 {
            assert(whole[4] == escaped(c)[4]);
            assert(other[4] == escaped(d)[4]);
            assert(whole[5] == escaped(c)[5]);
            assert(other[5] == escaped(d)[5]);
            hex_digits_differ(c as int / 16, d as int / 16);
            hex_digits_differ(c as int % 16, d as int % 16);
        }
    }
    assert(c == d);
    let n = escaped(c).len() as int;
    assert(whole.skip(n) =~= x);
    assert(other.skip(n) =~= y);
}

proof fn texts_differ(a: Seq<char>, b: Seq<char>, x: Seq<char>, y: Seq<char>)
    requires
        a.map_values(|c: char| escaped(c)).flatten() + seq!['"'] + x == b.map_values(
            |c: char| escaped(c),
        ).flatten() + seq!['"'] + y,
    ensures
        a == b,
        x == y,
    decreases a.len(),
{
    let left = a.map_values(|c: char| escaped(c));
    let right = b.map_values(|c: char| escaped(c));
    let whole = left.flatten() + seq!['"'] + x;
    let other = right.flatten() + seq!['"'] + y;
    if a.len() == 0 && b.len() == 0 {
        assert(whole.skip(1) =~= x);
        assert(other.skip(1) =~= y);
        assert(a =~= b);
    } else if a.len() == 0 {
        assert(other[0] == escaped(b[0])[0]);
        assert(whole[0] == '"');
    } else if b.len() == 0 {
        assert(whole[0] == escaped(a[0])[0]);
        assert(other[0] == '"');
    } else {
        let u = left.drop_first().flatten() + seq!['"'] + x;
        let v = right.drop_first().flatten() + seq!['"'] + y;
        assert(whole =~= escaped(a[0]) + u);
        assert(other =~= escaped(b[0]) + v);
        escapes_differ(a[0], b[0], u, v);
        assert(left.drop_first() =~= a.drop_first().map_values(|c: char| escaped(c)));
        assert(right.drop_first() =~= b.drop_first().map_values(|c: char| escaped(c)));
        texts_differ(a.drop_first(), b.drop_first(), x, y);
        assert(a =~= seq![a[0]] + a.drop_first());
        assert(b =~= seq![b[0]] + b.drop_first());
    }
}

proof fn strings_differ(a: Seq<char>, b: Seq<char>, x: Seq<char>, y: Seq<char>)
    requires
        json_string(a) + x == json_string(b) + y,
    ensures
        a == b,
        x == y,
{
    let left = a.map_values(|c: char| escaped(c)).flatten() + seq!['"'] + x;
    let right = b.map_values(|c: char| escaped(c)).flatten() + seq!['"'] + y;
    assert((json_string(a) + x).skip(1) =~= left);
    assert((json_string(b) + y).skip(1) =~= right);
    texts_differ(a, b, x, y);
}

type Member = (Seq<char>, Seq<char>);

proof fn members_from_the_front(members: Seq<Member>)
    requires
        members.len() > 1,
    ensures
        json_members(members) == json_member(members[0]) + seq![','] + json_members(
            members.drop_first(),
        ),
    decreases members.len(),
{
    let front = members.drop_last();
    let rest = members.drop_first();
    if members.len() == 2 {
        assert(json_members(front) == json_member(members[0]));
        assert(json_members(rest) == json_member(members[1]));
    } else {
        members_from_the_front(front);
        assert(front.drop_first() =~= rest.drop_last());
        assert(json_members(rest) == json_members(rest.drop_last()) + seq![',']
            + json_member(rest.last()));
        assert(json_members(members) =~= json_member(members[0]) + seq![',']
            + json_members(rest));
    }
}

/// What stands behind the first member of an object.
spec fn behind_first(members: Seq<Member>) -> Seq<char> {
    if members.len() > 1 {
        seq![','] + json_members(members.drop_first()) + seq!['}']
    } else {
        seq!['}']
    }
}

proof fn object_from_the_front(members: Seq<Member>)
    requires
        members.len() > 0,
    ensures
        json_members(members) + seq!['}'] == json_string(members[0].0) + (seq![':'] + (
        json_string(members[0].1) + behind_first(members))),
{
    if members.len() > 1 {
        members_from_the_front(members);
    }
    assert(json_members(members) + seq!['}'] =~= json_string(members[0].0) + (seq![':']
        + (json_string(members[0].1) + behind_first(members))));
}

proof fn members_differ(a: Seq<Member>, b: Seq<Member>)
    requires
        json_members(a) + seq!['}'] == json_members(b) + seq!['}'],
    ensures
        a == b,
    decreases a.len(),
{
    let left = json_members(a) + seq!['}'];
    let right = json_members(b) + seq!['}'];
    if a.len() == 0 || b.len() == 0 {
        if a.len() > 0 {
            object_from_the_front(a);
            assert(left[0] == '"');
            assert(right[0] == '}');
        }
        if b.len() > 0 {
            object_from_the_front(b);
            assert(right[0] == '"');
            assert(left[0] == '}');
        }
        assert(a =~= b);
    } else {
        object_from_the_front(a);
        object_from_the_front(b);
        let u = json_string(a[0].1) + behind_first(a);
        let v = json_string(b[0].1) + behind_first(b);
        strings_differ(a[0].0, b[0].0, seq![':'] + u, seq![':'] + v);
        assert((seq![':'] + u).skip(1) =~= u);
        assert((seq![':'] + v).skip(1) =~= v);
        strings_differ(a[0].1, b[0].1, behind_first(a), behind_first(b));
        assert(behind_first(a)[0] == behind_first(b)[0]);
        if a.len() > 1 {
            assert(behind_first(a).skip(1) =~= json_members(a.drop_first()) + seq!['}']);
            assert(behind_first(b).skip(1) =~= json_members(b.drop_first()) + seq!['}']);
            members_differ(a.drop_first(), b.drop_first());
            assert(a =~= seq![a[0]] + a.drop_first());
            assert(b =~= seq![b[0]] + b.drop_first());
        } else {
            assert(a =~= seq![a[0]]);
            assert(b =~= seq![b[0]]);
        }
    }
}

/// The text of a JSON object tells its members: objects with the same text have the
/// same members, in the same order, whatever the strings in them hold.
pub proof fn object_text_tells_its_members(a: Seq<Member>, b: Seq<Member>)
    requires
        json_object(a) == json_object(b),
    ensures
        a == b,
{
    assert(json_object(a).skip(1) =~= json_members(a) + seq!['}']);
    assert(json_object(b).skip(1) =~= json_members(b) + seq!['}']);
    members_differ(a, b);
}

/// The members of the object that the JSON display prints for a message.
spec fn members_of(status: StatusView) -> Seq<Member> {
    match status {
        StatusView::Begin { key, msg } => seq![("event"@, "begin"@), ("key"@, key), ("msg"@, msg)],
        StatusView::Update { key, msg } => seq![
            ("event"@, "update"@),
            ("key"@, key),
            ("msg"@, msg),
        ],
        StatusView::End { key, msg: Some(msg) } => seq![
            ("event"@, "end"@),
            ("key"@, key),
            ("msg"@, msg),
        ],
        StatusView::End { key, msg: None } => seq![("event"@, "end"@), ("key"@, key)],
        StatusView::Clear => Seq::empty(),
        StatusView::Fatal(msg) => seq![("event"@, "fatal"@), ("msg"@, msg)],
        StatusView::Log(msg) => seq![("event"@, "log"@), ("msg"@, msg)],
        StatusView::Stdout(bytes) => seq![
            ("data"@, text::utf8_lossy(bytes)),
            ("event"@, "stdout"@),
        ],
        StatusView::Stderr(bytes) => seq![
            ("data"@, text::utf8_lossy(bytes)),
            ("event"@, "stderr"@),
        ],
    }
}

proof fn events_differ()
    ensures
        "begin"@ != "update"@,
        "begin"@ != "end"@,
        "update"@ != "end"@,
        "fatal"@ != "log"@,
        "begin"@ != "fatal"@,
        "begin"@ != "log"@,
        "update"@ != "fatal"@,
        "update"@ != "log"@,
        "end"@ != "fatal"@,
        "end"@ != "log"@,
        "stdout"@ != "stderr"@,
        "data"@ != "event"@,
{
    reveal_strlit("begin");
    reveal_strlit("update");
    reveal_strlit("end");
    reveal_strlit("fatal");
    reveal_strlit("log");
    reveal_strlit("stdout");
    reveal_strlit("stderr");
    reveal_strlit("data");
    reveal_strlit("event");
    assert("stdout"@[3] != "stderr"@[3]);
    assert("begin"@[0] != "fatal"@[0]);
    assert("begin"@[0] != "update"@[0]);
    assert("data"@[0] != "event"@[0]);
    assert("end"@[0] != "log"@[0]);
}

/// Whether two messages say the same, where the output of a tool counts for the text
/// that is made of it.
pub open spec fn says_the_same(a: StatusView, b: StatusView) -> bool {
    match (a, b) {
        (StatusView::Stdout(x), StatusView::Stdout(y)) => text::utf8_lossy(x) == text::utf8_lossy(y),
        (StatusView::Stderr(x), StatusView::Stderr(y)) => text::utf8_lossy(x) == text::utf8_lossy(y),
        _ => a == b,
    }
}

/// A line of the JSON display tells which message it was printed for: messages for
/// which the same line is printed say the same.
pub proof fn json_line_tells_its_message(display: JsonView, a: StatusView, b: StatusView)
    requires
        display.line(a) is Some,
        display.line(a) == display.line(b),
    ensures
        says_the_same(a, b),
{
    let left = members_of(a);
    let right = members_of(b);
    assert(display.line(a) == Some(json_object(left)));
    assert(display.line(b) == Some(json_object(right)));
    object_text_tells_its_members(left, right);
    events_differ();
    assert(left[0] == right[0] && left[1] == right[1]);
    if left.len() > 2 {
        assert(left[2] == right[2]);
    }
}

/// What the line for a message holds: the kind of event, and all that the message says,
/// under the names that go with it.
pub proof fn line_holds_the_message(display: JsonView, status: StatusView)
    requires
        !display.stopped,
    ensures
        match status {
            StatusView::Begin { key, msg } => display.line(status) == Some(
                json_object(seq![("event"@, "begin"@), ("key"@, key), ("msg"@, msg)]),
            ),
            StatusView::Update { key, msg } => display.line(status) == Some(
                json_object(seq![("event"@, "update"@), ("key"@, key), ("msg"@, msg)]),
            ),
            StatusView::End { key, msg: Some(msg) } => display.line(status) == Some(
                json_object(seq![("event"@, "end"@), ("key"@, key), ("msg"@, msg)]),
            ),
            StatusView::End { key, msg: None } => display.line(status) == Some(
                json_object(seq![("event"@, "end"@), ("key"@, key)]),
            ),
            StatusView::Clear => display.line(status) is None,
            StatusView::Fatal(msg) => display.line(status) == Some(
                json_object(seq![("event"@, "fatal"@), ("msg"@, msg)]),
            ),
            StatusView::Log(msg) => msg.len() > 0 ==> display.line(status) == Some(
                json_object(seq![("event"@, "log"@), ("msg"@, msg)]),
            ),
            StatusView::Stdout(bytes) => display.line(status) == Some(
                json_object(seq![("data"@, text::utf8_lossy(bytes)), ("event"@, "stdout"@)]),
            ),
            StatusView::Stderr(bytes) => display.line(status) == Some(
                json_object(seq![("data"@, text::utf8_lossy(bytes)), ("event"@, "stderr"@)]),
            ),
        },
{
}

/// What a tool wrote is all that its line holds, with the name of the stream that it
/// wrote to.
pub proof fn output_line_holds_the_output(event: Seq<char>, data: Seq<char>)
    ensures
        output_line(event, data) == json_object(seq![("data"@, data), ("event"@, event)]),
{
}

} // verus!
