//! Places in the file system, as the names that lead to them.

use vstd::prelude::*;
use vstd::string::*;

use crate::text;

verus! {

/// The path that joining the names in `below`, one after the other, onto the path
/// `base` gives. How two paths are joined is up to the operating system. `base` is
/// written in the encoding that the standard library has for the strings of the
/// operating system, of which UTF-8 is a part.
#[derive(Debug)]
pub struct Location {
    pub base: Vec<u8>,
    pub below: Vec<String>,
}

/// What a [`Location`] holds.
#[verifier::ext_equal]
pub struct LocationView {
    pub base: Seq<u8>,
    pub below: Seq<Seq<char>>,
}

impl View for Location {
    type V = LocationView;

    open spec fn view(&self) -> LocationView {
        LocationView { base: self.base@, below: text::views(self.below@) }
    }
}

/// `name` without the slash that it may end in.
pub open spec fn without_slash(name: Seq<char>) -> Seq<char> {
    if name.len() > 0 && name.last() == '/' {
        name.drop_last()
    } else {
        name
    }
}

impl LocationView {
    /// The path itself, with nothing joined onto it.
    pub open spec fn at(base: Seq<u8>) -> LocationView {
        LocationView { base, below: Seq::empty() }
    }

    /// The location with one more name joined on.
    pub open spec fn join(self, name: Seq<char>) -> LocationView {
        LocationView { below: self.below.push(name), ..self }
    }

    /// Whether both are spellings of one path: a slash at the end of a name makes no
    /// difference to where it leads.
    pub open spec fn same_place(self, other: LocationView) -> bool {
        &&& self.base == other.base
        &&& self.below.len() == other.below.len()
        &&& forall|k: int|
            0 <= k < self.below.len() ==> without_slash(#[trigger] self.below[k])
                == without_slash(other.below[k])
    }

    /// The location with more names joined on, in order.
    pub open spec fn join_all(self, names: Seq<Seq<char>>) -> LocationView {
        LocationView { below: self.below + names, ..self }
    }
}

/// A copy of some bytes.
pub(crate) fn copy_bytes(bytes: &Vec<u8>) -> (r: Vec<u8>)
    ensures
        r@ == bytes@,
{
    let r: Vec<u8> = bytes.clone();
    assert(r@ =~= bytes@);
    r
}

/// Copies of some strings.
pub(crate) fn copy_strings(strings: &Vec<String>) -> (r: Vec<String>)
    ensures
        text::views(r@) == text::views(strings@),
{
    let mut r: Vec<String> = Vec::new();
    let mut i: usize = 0;
    while i < strings.len()
        invariant
            i <= strings@.len(),
            r@.len() == i,
            forall|j: int| 0 <= j < i ==> (#[trigger] r@[j])@ == strings@[j]@,
        decreases strings@.len() - i,
    {
        r.push(strings[i].clone());
        i = i + 1;
    }
    assert(text::views(r@) =~= text::views(strings@));
    r
}

impl Clone for Location {
    fn clone(&self) -> (r: Location)
        ensures
            r@ == self@,
    {
        Location { base: copy_bytes(&self.base), below: copy_strings(&self.below) }
    }
}

impl Location {
    /// The path `base` itself.
    pub fn at(base: Vec<u8>) -> (r: Location)
        ensures
            r@ == LocationView::at(base@),
    {
        let r: Location = Location { base, below: Vec::new() };
        assert(r@ =~= LocationView::at(base@));
        r
    }

    /// The path that the text `path` spells.
    pub fn of_text(path: &str) -> (r: Location)
        ensures
            r@ == LocationView::at(path.spec_bytes()),
    {
        Location::at(path.as_bytes_vec())
    }

    /// The location with one more name joined on.
    pub fn join(&self, name: &str) -> (r: Location)
        ensures
            r@ == self@.join(name@),
    {
        let mut below: Vec<String> = copy_strings(&self.below);
        below.push(name.to_owned());
        let r: Location = Location { base: copy_bytes(&self.base), below };
        assert(r@ =~= self@.join(name@));
        r
    }

    /// The location with the names from the given position on joined on, in order.
    pub fn join_from(&self, names: &Vec<String>, first: usize) -> (r: Location)
        requires
            first <= names@.len(),
        ensures
            r@ == self@.join_all(text::views(names@).skip(first as int)),
    {
        let mut r: Location = self.clone();
        let mut i: usize = first;
        let ghost tail = text::views(names@).skip(first as int);
        assert(self@.join_all(tail.take(0)) =~= self@);
        while i < names.len()
            invariant
                first <= i <= names@.len(),
                tail == text::views(names@).skip(first as int),
                r@ == self@.join_all(tail.take(i - first)),
            decreases names@.len() - i,
        {
            assert(tail.take(i + 1 - first) =~= tail.take(i - first).push(names@[i as int]@));
            r = r.join(names[i].as_str());
            assert(r@ =~= self@.join_all(tail.take(i + 1 - first)));
            i = i + 1;
        }
        assert(tail.take(tail.len() as int) =~= tail);
        r
    }
}

/// Joining a name onto a location adds it behind the others, and changes nothing else;
/// so do several names, one after the other. A path alone has no name joined on.
pub proof fn joining_adds_names_at_the_end(
    place: LocationView,
    base: Seq<u8>,
    name: Seq<char>,
    names: Seq<Seq<char>>,
)
    ensures
        LocationView::at(base).base == base,
        LocationView::at(base).below.len() == 0,
        place.join(name).base == place.base,
        place.join(name).below.len() == place.below.len() + 1,
        place.join(name).below.last() == name,
        forall|k: int|
            0 <= k < place.below.len() ==> (#[trigger] place.join(name).below[k])
                == place.below[k],
        place.join_all(Seq::empty()) == place,
        place.join_all(names.push(name)) == place.join_all(names).join(name),
{
    assert(place.join_all(Seq::empty()) =~= place);
    assert(place.join_all(names.push(name)) =~= place.join_all(names).join(name));
}

/// A location is seen whole: its path, and each of the names.
pub proof fn location_is_seen_whole(place: Location)
    ensures
        place@.base == place.base@,
        place@.below.len() == place.below@.len(),
        forall|k: int|
            0 <= k < place.below@.len() ==> (#[trigger] place@.below[k]) == place.below@[k]@,
{
}

} // verus!
