//! Places in the file system, as a base directory and the parts that are joined to it in turn.
use vstd::prelude::*;

verus! {

/// A path that is reached from `base` by joining each of `parts` in order.
#[derive(Debug)]
pub struct Location {
    pub base: String,
    pub parts: Vec<String>,
}

/// What a [`Location`] says.
#[verifier::ext_equal]
pub struct LocationView {
    pub base: Seq<char>,
    pub parts: Seq<Seq<char>>,
}

impl View for Location {
    type V = LocationView;

    open spec fn view(&self) -> LocationView {
        LocationView { base: self.base@, parts: texts(self.parts@) }
    }
}

/// The texts that a sequence of strings holds.
pub open spec fn texts(strings: Seq<String>) -> Seq<Seq<char>> {
    strings.map_values(|s: String| s@)
}

impl Location {
    /// The directory `base` itself.
    pub fn root(base: &str) -> (place: Location)
        ensures
            place@ == (LocationView { base: base@, parts: Seq::empty() }),
            place.base@ == base@,
            place.parts@.len() == 0,
    {
        let place = Location { base: base.to_owned(), parts: Vec::new() };
        assert(place@ =~= (LocationView { base: base@, parts: Seq::empty() }));
        place
    }

    /// What is reached from this place by joining `part` to it.
    pub fn join(self, part: &str) -> (place: Location)
        ensures
            place@ == (LocationView { base: self@.base, parts: self@.parts.push(part@) }),
            place.base@ == self.base@,
            place.parts@.len() == self.parts@.len() + 1,
            place.parts@.last()@ == part@,
            forall|i: int|
                0 <= i < self.parts@.len() ==> #[trigger] place.parts@[i] == self.parts@[i],
    {
        let mut parts = self.parts;
        parts.push(part.to_owned());
        let place = Location { base: self.base, parts };
        assert(place@.parts =~= self@.parts.push(part@));
        place
    }
}

/// Each text of a sequence of strings stands at the place of its string.
pub proof fn law_texts_keep_their_places(strings: Seq<String>)
    ensures
        texts(strings).len() == strings.len(),
        forall|i: int| 0 <= i < strings.len() ==> #[trigger] texts(strings)[i] == strings[i]@,
{
}

} // verus!
