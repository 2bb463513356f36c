//! The catalog of placeholders: for each name, the places of a request where its token
//! occurs.

use crate::headers::header_name_text;
use crate::table::{index_of, lemma_index_of_found, Table};
use http::header::HeaderName;
use vstd::prelude::*;

verus! {

/// `HeaderName::clone` yields a name with the same text.
pub assume_specification[ <HeaderName as Clone>::clone ](name: &HeaderName) -> (copy: HeaderName)
    ensures
        header_name_text(copy) == header_name_text(*name),
;

/// A place of a request where a placeholder can occur.
#[derive(Debug, PartialEq, Eq)]
pub enum Location {
    /// The URL.
    Url,
    /// The first value of the header of this name.
    Headers(HeaderName),
    /// The first query parameter with this key.
    QueryParams(String),
    /// The field with this key of a form body.
    BodyForm(String),
    /// The body as a whole. Rendering leaves it alone.
    Body,
}

/// A location as plain values.
pub enum Site {
    Url,
    Headers(Seq<char>),
    QueryParams(Seq<char>),
    BodyForm(Seq<char>),
    Body,
}

impl View for Location {
    type V = Site;

    open spec fn view(&self) -> Site {
        match self {
            Location::Url => Site::Url,
            Location::Headers(name) => Site::Headers(header_name_text(*name)),
            Location::QueryParams(key) => Site::QueryParams(key@),
            Location::BodyForm(key) => Site::BodyForm(key@),
            Location::Body => Site::Body,
        }
    }
}

impl Clone for Location {
    fn clone(&self) -> (copy: Self)
        ensures
            copy@ == self@,
    {
        match self {
            Location::Url => Location::Url,
            Location::Headers(name) => Location::Headers(name.clone()),
            Location::QueryParams(key) => Location::QueryParams(key.clone()),
            Location::BodyForm(key) => Location::BodyForm(key.clone()),
            Location::Body => Location::Body,
        }
    }
}

/// The plain values of a list of locations.
pub open spec fn sites(locations: Seq<Location>) -> Seq<Site> {
    Seq::new(locations.len(), |i: int| locations[i]@)
}

/// A catalog with `site` recorded for `name`: after the sites the name already has, or
/// as the only site of a new last name.
pub open spec fn recorded(
    catalog: Seq<(Seq<char>, Seq<Site>)>,
    name: Seq<char>,
    site: Site,
) -> Seq<(Seq<char>, Seq<Site>)> {
    match index_of(catalog, name) {
        Some(i) => catalog.update(i, (catalog[i].0, catalog[i].1.push(site))),
        None => catalog.push((name, seq![site])),
    }
}

/// A catalog with `site` recorded for each of `names` in turn.
pub open spec fn recorded_all(
    catalog: Seq<(Seq<char>, Seq<Site>)>,
    site: Site,
    names: Seq<Seq<char>>,
) -> Seq<(Seq<char>, Seq<Site>)>
    decreases names.len(),
{
    if names.len() == 0 {
        catalog
    } else {
        recorded_all(recorded(catalog, names[0], site), site, names.skip(1))
    }
}

/// The placeholders of one request: each name once, in the order in which the names
/// were first recorded, with the locations of its token in the order they were recorded.
pub struct Placeholders {
    pub names: Table<Vec<Location>>,
}

impl View for Placeholders {
    type V = Seq<(Seq<char>, Seq<Site>)>;

    open spec fn view(&self) -> Self::V {
        Seq::new(self.names@.len(), |i: int| (self.names@[i].0, sites(self.names@[i].1)))
    }
}

impl Placeholders {
    /// The invariant of the type: no name occurs twice.
    pub open spec fn wf(&self) -> bool {
        self.names.wf()
    }

    /// An empty catalog.
    pub fn new() -> (catalog: Self)
        ensures
            catalog@ == Seq::<(Seq<char>, Seq<Site>)>::empty(),
            catalog.wf(),
    {
        let catalog = Placeholders { names: Table::new() };
        assert(catalog@ =~= Seq::<(Seq<char>, Seq<Site>)>::empty());
        catalog
    }

    /// Records `location` for `name`.
    pub fn add(&mut self, location: &Location, name: &str)
        requires
            old(self).wf(),
        ensures
            final(self)@ == recorded(old(self)@, name@, location@),
            final(self).wf(),
    {
        proof {
            lemma_same_index(self.names@, self@, name@);
            lemma_index_of_found(self.names@, name@);
        }
        match self.names.find(name) {
            Some(i) => {
                self.names.entries[i].1.push(location.clone());
                assert(self@ =~= recorded(old(self)@, name@, location@)) by {
                    assert(sites(self.names@[i as int].1) =~= sites(old(self).names@[i as int].1).push(location@));
                }
                assert(self.wf()) by {
                    assert forall|a: int| 0 <= a < self.names@.len() implies (#[trigger] self.names@[a]).0
                        == old(self).names@[a].0 by {}
                }
            },
            None => {
                let mut locations: Vec<Location> = Vec::new();
                locations.push(location.clone());
                self.names.entries.push((name.to_owned(), locations));
                assert(self@ =~= recorded(old(self)@, name@, location@)) by {
                    assert(sites(locations@) =~= seq![location@]);
                }
                assert(self.wf()) by {
                    assert forall|a: int| 0 <= a < old(self).names@.len() implies (#[trigger] self.names@[a]).0
                        == old(self).names@[a].0 && self.names@[a].0 != name@ by {
                        assert(old(self).names@[a].0 != name@);
                    }
                }
            },
        }
    }

    /// Records `location` for each of `names` in turn.
    pub fn add_all(&mut self, location: &Location, names: Vec<&str>)
        requires
            old(self).wf(),
        ensures
            final(self)@ == recorded_all(old(self)@, location@, names_text(names@)),
            final(self).wf(),
    {
        let mut i: usize = 0;
        assert(names_text(names@).skip(0) =~= names_text(names@));
        while i < names.len()
            invariant
                i <= names.len(),
                self.wf(),
                recorded_all(self@, location@, names_text(names@).skip(i as int)) == recorded_all(
                    old(self)@,
                    location@,
                    names_text(names@),
                ),
            decreases names.len() - i,
        {
            let ghost before = self@;
            self.add(location, names[i]);
            proof {
                let rest = names_text(names@).skip(i as int);
                assert(rest[0] == names@[i as int]@);
                assert(rest.skip(1) =~= names_text(names@).skip(i + 1));
            }
            i += 1;
        }
    }
}

impl Default for Placeholders {
    fn default() -> (catalog: Self)
        ensures
            catalog@ == Seq::<(Seq<char>, Seq<Site>)>::empty(),
            catalog.wf(),
    {
        Placeholders::new()
    }
}

/// The text of each of a list of names.
pub open spec fn names_text(names: Seq<&str>) -> Seq<Seq<char>> {
    Seq::new(names.len(), |i: int| names[i]@)
}

/// Two sequences with the same keys find a key at the same position.
pub proof fn lemma_same_index<A, B>(
    left: Seq<(Seq<char>, A)>,
    right: Seq<(Seq<char>, B)>,
    key: Seq<char>,
)
    requires
        left.len() == right.len(),
        forall|i: int| 0 <= i < left.len() ==> (#[trigger] left[i]).0 == right[i].0,
    ensures
        index_of(left, key) == index_of(right, key),
{
    lemma_index_of_found(left, key);
    lemma_index_of_found(right, key);
    match index_of(left, key) {
        Some(i) => {
            assert(right[i].0 == key);
            assert forall|j: int| 0 <= j < i implies (#[trigger] right[j]).0 != key by {
                assert(left[j].0 != key);
            }
            crate::table::lemma_index_of_first(right, key, i);
        },
        None => {
            assert forall|j: int| 0 <= j < right.len() implies (#[trigger] right[j]).0 != key by {
                assert(left[j].0 != key);
            }
            crate::table::lemma_index_of_absent(right, key);
        },
    }
}

} // verus!
