//! Text as sequences of characters: words, lines and decimal numbers.

use vstd::prelude::*;
use vstd::string::*;
use vstd::utf8::*;

verus! {

/// `String::push` of the standard library: appends one character to the string.
pub assume_specification[ String::push ](s: &mut String, c: char)
    ensures
        final(s)@ == old(s)@.push(c),
;

/// The characters with the Unicode property `White_Space`.
pub open spec fn is_white(c: char) -> bool {
    ||| '\u{9}' <= c <= '\u{d}'
    ||| c == ' '
    ||| c == '\u{85}'
    ||| c == '\u{a0}'
    ||| c == '\u{1680}'
    ||| '\u{2000}' <= c <= '\u{200a}'
    ||| c == '\u{2028}'
    ||| c == '\u{2029}'
    ||| c == '\u{202f}'
    ||| c == '\u{205f}'
    ||| c == '\u{3000}'
}

/// Whether `c` is white space.
pub fn white(c: char) -> (r: bool)
    ensures
        r == is_white(c),
{
    ('\u{9}' <= c && c <= '\u{d}') || c == ' ' || c == '\u{85}' || c == '\u{a0}' || c == '\u{1680}'
        || ('\u{2000}' <= c && c <= '\u{200a}') || c == '\u{2028}' || c == '\u{2029}' || c
        == '\u{202f}' || c == '\u{205f}' || c == '\u{3000}'
}

/// `s` without the white space that it starts with.
pub open spec fn trim_start(s: Seq<char>) -> Seq<char>
    decreases s.len(),
{
    if s.len() > 0 && is_white(s[0]) {
        trim_start(s.drop_first())
    } else {
        s
    }
}

/// The longest prefix of `s` that holds no white space and no dash.
pub open spec fn plain_prefix(s: Seq<char>) -> Seq<char>
    decreases s.len(),
{
    if s.len() == 0 || is_white(s[0]) || s[0] == '-' {
        Seq::empty()
    } else {
        seq![s[0]] + plain_prefix(s.drop_first())
    }
}

/// The part of the first word of `s` that stands before its first dash, if `s` has
/// a word at all.
pub open spec fn word_before_dash(s: Seq<char>) -> Option<Seq<char>> {
    let words = trim_start(s);
    if words.len() == 0 {
        None
    } else {
        Some(plain_prefix(words))
    }
}

/// The first word of `s`, up to its first dash; `None` where `s` holds white space
/// alone.
pub fn first_word_before_dash(s: &str) -> (r: Option<String>)
    ensures
        match r {
            Some(w) => word_before_dash(s@) == Some(w@),
            None => word_before_dash(s@) is None,
        },
{
    let mut word: String = String::new();
    let mut started: bool = false;
    let mut ended: bool = false;
    assert(s@.skip(0) =~= s@);
    for c in it: s.chars()
        invariant
            it.seq() == s@,
            !started ==> word@.len() == 0 && !ended && trim_start(s@) == trim_start(
                s@.skip(it.index() as int),
            ),
            started ==> trim_start(s@).len() > 0,
            started && !ended ==> plain_prefix(trim_start(s@)) == word@ + plain_prefix(
                s@.skip(it.index() as int),
            ),
            started && ended ==> plain_prefix(trim_start(s@)) == word@,
    {
        let ghost rest = s@.skip(it.index() as int);
        assert(rest[0] == c);
        assert(rest.drop_first() =~= s@.skip(it.index() as int + 1));
        if !started && !white(c) {
            started = true;
            assert(word@ + plain_prefix(rest) =~= plain_prefix(rest));
        }
        if started && !ended {
            if white(c) || c == '-' {
                ended = true;
                assert(word@ + plain_prefix(rest) =~= word@);
            } else {
                let ghost before = word@;
                word.push(c);
                assert(before + (seq![c] + plain_prefix(rest.drop_first())) =~= word@
                    + plain_prefix(rest.drop_first()));
            }
        }
    }
    assert(s@.skip(s@.len() as int) =~= Seq::<char>::empty());
    if started {
        assert(word@ + Seq::<char>::empty() =~= word@);
        Some(word)
    } else {
        None
    }
}

/// The number of characters of `s` before its first line feed, or all of them where
/// it has none.
pub open spec fn line_length(s: Seq<char>) -> nat
    decreases s.len(),
{
    if s.len() == 0 || s[0] == '\n' {
        0
    } else {
        1 + line_length(s.drop_first())
    }
}

/// `line` without the carriage return that it may end in.
pub open spec fn without_return(line: Seq<char>) -> Seq<char> {
    if line.len() > 0 && line.last() == '\r' {
        line.drop_last()
    } else {
        line
    }
}

/// The lines of `s`. A line ends in a line feed, which may follow a carriage return;
/// neither belongs to the line. The last line may end with the text instead.
pub open spec fn lines_of(s: Seq<char>) -> Seq<Seq<char>>
    decreases s.len(),
{
    let n = line_length(s) as int;
    if s.len() == 0 {
        Seq::empty()
    } else if n < s.len() {
        seq![without_return(s.take(n))] + lines_of(s.skip(n + 1))
    } else {
        seq![s]
    }
}

proof fn line_length_of_prefix(line: Seq<char>, rest: Seq<char>)
    requires
        !line.contains('\n'),
        rest.len() == 0 || rest[0] == '\n',
    ensures
        line_length(line + rest) == line.len(),
    decreases line.len(),
{
    if line.len() > 0 {
        assert(line.contains(line[0]));
        assert((line + rest).drop_first() =~= line.drop_first() + rest);
        assert forall|i: int| 0 <= i < line.drop_first().len() implies line.drop_first()[i]
            != '\n' by {
            assert(line.contains(line[i + 1]));
        }
        line_length_of_prefix(line.drop_first(), rest);
    } else {
        assert(line + rest =~= rest);
    }
}

/// The views of a vector of strings.
pub open spec fn views(v: Seq<String>) -> Seq<Seq<char>> {
    v.map_values(|s: String| s@)
}

/// The text of a string that may be missing.
pub open spec fn option_view(s: Option<String>) -> Option<Seq<char>> {
    match s {
        Some(t) => Some(t@),
        None => None,
    }
}

/// The lines of `s`, in order.
pub fn lines(s: &str) -> (r: Vec<String>)
    ensures
        views(r@) == lines_of(s@),
{
    let mut out: Vec<String> = Vec::new();
    let mut line: String = String::new();
    let mut returned: bool = false;
    let ghost mut text: Seq<char> = Seq::empty();
    assert(text + s@.skip(0) =~= s@);
    assert(views(out@) + lines_of(s@) =~= lines_of(s@));
    for c in it: s.chars()
        invariant
            it.seq() == s@,
            !text.contains('\n'),
            text == (if returned {
                line@.push('\r')
            } else {
                line@
            }),
            !returned ==> line@.len() == 0 || line@.last() != '\r',
            lines_of(s@) == views(out@) + lines_of(text + s@.skip(it.index() as int)),
    {
        let ghost rest = s@.skip(it.index() as int);
        let ghost next = s@.skip(it.index() as int + 1);
        assert(rest[0] == c);
        assert(rest.drop_first() =~= next);
        if c == '\n' {
            proof {
                line_length_of_prefix(text, rest);
                assert((text + rest).take(text.len() as int) =~= text);
                assert((text + rest).skip(text.len() as int + 1) =~= next);
                assert(without_return(text) =~= line@);
                assert(Seq::<char>::empty() + next =~= next);
            }
            let ghost before = views(out@);
            let ghost done = line@;
            out.push(line);
            assert(views(out@) =~= before.push(done));
            assert(before + (seq![done] + lines_of(next)) =~= views(out@) + lines_of(next));
            line = String::new();
            returned = false;
            proof {
                text = Seq::empty();
            }
        } else {
            let ghost before = text;
            if returned {
                line.push('\r');
            }
            returned = c == '\r';
            if !returned {
                line.push(c);
            }
            proof {
                text = text.push(c);
                assert(text + next =~= before + rest);
                assert forall|i: int| 0 <= i < text.len() implies text[i] != '\n' by {
                    if i < before.len() {
                        assert(before.contains(before[i]));
                    }
                }
            }
        }
    }
    assert(text + s@.skip(s@.len() as int) =~= text);
    if returned {
        line.push('\r');
    }
    proof {
        line_length_of_prefix(text, Seq::empty());
        assert(text + Seq::<char>::empty() =~= text);
    }
    if !line.as_str().is_empty() {
        let ghost before = views(out@);
        out.push(line);
        assert(views(out@) =~= before + seq![text]);
    } else {
        assert(views(out@) + Seq::<Seq<char>>::empty() =~= views(out@));
    }
    out
}

/// The digit of a number below ten.
pub open spec fn digit(n: nat) -> char {
    ('0' as int + n) as char
}

/// The decimal digits of `n`, without leading zeros.
pub open spec fn decimal(n: nat) -> Seq<char>
    decreases n,
{
    if n < 10 {
        seq![digit(n)]
    } else {
        decimal(n / 10).push(digit(n % 10))
    }
}

/// `n` in decimal.
pub fn decimal_text(n: usize) -> (r: String)
    ensures
        r@ == decimal(n as nat),
    decreases n,
{
    let last: usize = n % 10;
    let c: char = match last {
        0 => '0',
        1 => '1',
        2 => '2',
        3 => '3',
        4 => '4',
        5 => '5',
        6 => '6',
        7 => '7',
        8 => '8',
        _ => '9',
    };
    assert(c == digit(last as nat));
    let mut r: String = if n < 10 {
        String::new()
    } else {
        decimal_text(n / 10)
    };
    r.push(c);
    assert(n < 10 ==> r@ =~= decimal(n as nat));
    r
}

/// `String::from_utf8` of the standard library: succeeds on valid UTF-8 and on
/// nothing else, and then decodes it.
#[verifier::external_body]
pub(crate) fn utf8_text(bytes: Vec<u8>) -> (r: Option<String>)
    ensures
        match r {
            Some(s) => valid_utf8(bytes@) && s@ == decode_utf8(bytes@),
            None => !valid_utf8(bytes@),
        },
{
    String::from_utf8(bytes).ok()
}

/// What `String::from_utf8_lossy` of the standard library makes of some bytes.
pub uninterp spec fn utf8_lossy(bytes: Seq<u8>) -> Seq<char>;

/// `String::from_utf8_lossy` of the standard library: valid UTF-8 is decoded; of
/// other bytes it is claimed only that the text is a function of them.
#[verifier::external_body]
pub(crate) fn utf8_lossy_text(bytes: &Vec<u8>) -> (r: String)
    ensures
        r@ == utf8_lossy(bytes@),
        valid_utf8(bytes@) ==> r@ == decode_utf8(bytes@),
{
    String::from_utf8_lossy(bytes).into_owned()
}

/// Each line of a text is one line: none holds a line feed.
pub proof fn lines_hold_no_line_feed(s: Seq<char>)
    ensures
        forall|i: int|
            0 <= i < lines_of(s).len() ==> !(#[trigger] lines_of(s)[i]).contains('\n'),
    decreases s.len(),
{
    if s.len() > 0 {
        let n = line_length(s) as int;
        line_holds_no_line_feed(s);
        if n < s.len() {
            let first = without_return(s.take(n));
            let rest = lines_of(s.skip(n + 1));
            lines_hold_no_line_feed(s.skip(n + 1));
            assert forall|i: int| 0 <= i < lines_of(s).len() implies !(
            #[trigger] lines_of(s)[i]).contains('\n') by {
                if i == 0 {
                    assert forall|k: int| 0 <= k < first.len() implies first[k] != '\n' by {
                        assert(first[k] == s[k]);
                    }
                } else {
                    assert(lines_of(s)[i] == rest[i - 1]);
                }
            }
        }
    }
}

proof fn line_holds_no_line_feed(s: Seq<char>)
    ensures
        line_length(s) <= s.len(),
        forall|i: int| 0 <= i < line_length(s) ==> s[i] != '\n',
    decreases s.len(),
{
    if s.len() > 0 && s[0] != '\n' {
        line_holds_no_line_feed(s.drop_first());
        assert forall|i: int| 0 <= i < line_length(s) implies s[i] != '\n' by {
            if i > 0 {
                assert(s[i] == s.drop_first()[i - 1]);
            }
        }
    }
}

/// A text is split at its line feeds: what stands before the first one is the first
/// line, less a carriage return at its end, and the lines of what stands behind it
/// follow. A text without a line feed is one line as it is, and an empty text has no
/// line.
pub proof fn lines_are_split_at_line_feeds(line: Seq<char>, rest: Seq<char>)
    requires
        !line.contains('\n'),
    ensures
        lines_of(Seq::empty()) == Seq::<Seq<char>>::empty(),
        line.len() > 0 ==> lines_of(line) == seq![line],
        line.len() == 0 || line.last() != '\r' ==> lines_of(line + seq!['\n'] + rest) == seq![line]
            + lines_of(rest),
        lines_of(line + seq!['\r', '\n'] + rest) == seq![line] + lines_of(rest),
{
    line_length_of_prefix(line, Seq::empty());
    assert(line + Seq::<char>::empty() =~= line);
    let ended = line + seq!['\n'] + rest;
    let feed = seq!['\n'] + rest;
    line_length_of_prefix(line, feed);
    assert(line + feed =~= ended);
    assert(ended.take(line.len() as int) =~= line);
    assert(ended.skip(line.len() as int + 1) =~= rest);
    let returned = line.push('\r');
    assert forall|i: int| 0 <= i < returned.len() implies returned[i] != '\n' by {
        if i < line.len() {
            assert(line.contains(line[i]));
        }
    }
    line_length_of_prefix(returned, feed);
    let whole = line + seq!['\r', '\n'] + rest;
    assert(returned + feed =~= whole);
    assert(whole.take(returned.len() as int) =~= returned);
    assert(whole.skip(returned.len() as int + 1) =~= rest);
    assert(returned.drop_last() =~= line);
}

/// The number that decimal digits stand for.
pub open spec fn value_of(digits: Seq<char>) -> int
    decreases digits.len(),
{
    if digits.len() == 0 {
        0
    } else {
        10 * value_of(digits.drop_last()) + (digits.last() as int - '0' as int)
    }
}

/// Whether `digits` are how `n` is written in decimal: digits alone that stand for it,
/// beginning with a zero only where there is no other.
pub open spec fn writes(digits: Seq<char>, n: int) -> bool {
    &&& value_of(digits) == n
    &&& digits.len() > 0
    &&& forall|i: int| 0 <= i < digits.len() ==> '0' <= #[trigger] digits[i] <= '9'
    &&& digits[0] == '0' ==> digits.len() == 1
}

/// A number in decimal stands for that number: it is made of digits alone, and begins
/// with a zero only where it is zero.
pub proof fn decimal_stands_for_its_number(n: nat)
    ensures
        writes(decimal(n), n as int),
    decreases n,
{
    if n >= 10 {
        decimal_stands_for_its_number(n / 10);
        let shorter = decimal(n / 10);
        assert(decimal(n).drop_last() =~= shorter);
        assert(decimal(n)[0] == shorter[0]);
        if shorter[0] == '0' {
            assert(shorter.drop_last() =~= Seq::empty());
            assert(value_of(shorter) == 10 * value_of(shorter.drop_last()));
        }
    } else {
        assert(decimal(n).drop_last() =~= Seq::empty());
        assert(value_of(decimal(n).drop_last()) == 0);
    }
}

/// Each string is seen as its own text, in its own place.
pub proof fn strings_are_seen_one_by_one(v: Seq<String>, missing: Option<String>)
    ensures
        views(v).len() == v.len(),
        forall|i: int| 0 <= i < v.len() ==> (#[trigger] views(v)[i]) == v[i]@,
        missing is Some <==> option_view(missing) is Some,
        missing matches Some(s) ==> option_view(missing) == Some(s@),
{
}

} // verus!
