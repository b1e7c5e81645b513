//! A model of an HTTP header collection: an ordered list of name/value
//! pairs, looked up case-insensitively (header names compare equal after
//! ASCII lower-casing), with replacing insertion and removal of every
//! matching entry.

use vstd::prelude::*;

use crate::text::{eq_ignore_ascii_case, lower};

verus! {

/// Two header names denote the same header.
pub open spec fn key_matches(k: Seq<char>, name: Seq<char>) -> bool {
    lower(k) == lower(name)
}

/// Some entry is named `name`.
pub open spec fn has_header(hs: Seq<(Seq<char>, Seq<char>)>, name: Seq<char>) -> bool {
    exists|i: int| 0 <= i < hs.len() && key_matches(#[trigger] hs[i].0, name)
}

/// The value of the first entry named `name`, if any.
pub open spec fn header_first(hs: Seq<(Seq<char>, Seq<char>)>, name: Seq<char>) -> Option<
    Seq<char>,
>
    decreases hs.len(),
{
    if hs.len() == 0 {
        None
    } else if key_matches(hs[0].0, name) {
        Some(hs[0].1)
    } else {
        header_first(hs.drop_first(), name)
    }
}

/// The entries with every entry named `name` removed, order kept.
pub open spec fn remove_header(hs: Seq<(Seq<char>, Seq<char>)>, name: Seq<char>) -> Seq<
    (Seq<char>, Seq<char>),
>
    decreases hs.len(),
{
    if hs.len() == 0 {
        hs
    } else if key_matches(hs[0].0, name) {
        remove_header(hs.drop_first(), name)
    } else {
        seq![hs[0]] + remove_header(hs.drop_first(), name)
    }
}

/// An entry is present under a name exactly when a first value exists for it.
pub proof fn lemma_has_header_first(hs: Seq<(Seq<char>, Seq<char>)>, name: Seq<char>)
    ensures
        has_header(hs, name) <==> header_first(hs, name) is Some,
    decreases hs.len(),
{
    if hs.len() > 0 && !key_matches(hs[0].0, name) {
        lemma_has_header_first(hs.drop_first(), name);
        assert(forall|i: int|
            0 < i < hs.len() ==> #[trigger] hs[i].0 == hs.drop_first()[i - 1].0);
        if has_header(hs, name) {
            let i = choose|i: int| 0 <= i < hs.len() && key_matches(#[trigger] hs[i].0, name);
            assert(key_matches(hs.drop_first()[i - 1].0, name));
        }
    }
}

/// After removal nothing is left under the removed name.
pub proof fn lemma_remove_header_removes(hs: Seq<(Seq<char>, Seq<char>)>, name: Seq<char>)
    ensures
        !has_header(remove_header(hs, name), name),
    decreases hs.len(),
{
    if hs.len() > 0 {
        lemma_remove_header_removes(hs.drop_first(), name);
        if !key_matches(hs[0].0, name) {
            let out = seq![hs[0]] + remove_header(hs.drop_first(), name);
            assert(forall|i: int|
                0 < i < out.len() ==> #[trigger] out[i] == remove_header(hs.drop_first(), name)[i
                    - 1]);
            if has_header(out, name) {
                let i = choose|i: int|
                    0 <= i < out.len() && key_matches(#[trigger] out[i].0, name);
                assert(i > 0);
                assert(key_matches(remove_header(hs.drop_first(), name)[i - 1].0, name));
            }
        }
    }
}

/// Removal never invents an entry: a name present afterwards was present
/// before.
pub proof fn lemma_remove_header_has(
    hs: Seq<(Seq<char>, Seq<char>)>,
    name: Seq<char>,
    other: Seq<char>,
)
    ensures
        has_header(remove_header(hs, name), other) ==> has_header(hs, other),
    decreases hs.len(),
{
    if hs.len() > 0 {
        lemma_remove_header_has(hs.drop_first(), name, other);
        assert(forall|i: int|
            0 <= i < hs.drop_first().len() ==> #[trigger] hs.drop_first()[i] == hs[i + 1]);
        if !key_matches(hs[0].0, name) {
            let out = seq![hs[0]] + remove_header(hs.drop_first(), name);
            if has_header(out, other) {
                let i = choose|i: int|
                    0 <= i < out.len() && key_matches(#[trigger] out[i].0, other);
                if i > 0 {
                    assert(key_matches(remove_header(hs.drop_first(), name)[i - 1].0, other));
                }
            }
        }
    }
}

/// The first value under `name` after appending one entry: the appended
/// entry counts only where nothing under `name` stood before it.
pub proof fn lemma_header_first_append(
    hs: Seq<(Seq<char>, Seq<char>)>,
    name: Seq<char>,
    entry: (Seq<char>, Seq<char>),
)
    requires
        !has_header(hs, name),
    ensures
        header_first(hs + seq![entry], name) == if key_matches(entry.0, name) {
            Some(entry.1)
        } else {
            None::<Seq<char>>
        },
    decreases hs.len(),
{
    let cat = hs + seq![entry];
    if hs.len() == 0 {
        assert(cat.len() == 1);
        assert(cat[0] == entry);
        if key_matches(entry.0, name) {
            assert(header_first(cat, name) == Some(entry.1));
        } else {
            assert(cat.drop_first() =~= Seq::<(Seq<char>, Seq<char>)>::empty());
            assert(header_first(cat, name) == header_first(cat.drop_first(), name));
            assert(header_first(cat.drop_first(), name) is None);
        }
    } else {
        if has_header(hs, name) {
        } else {
            assert(forall|i: int| 0 <= i < hs.len() ==> !key_matches(#[trigger] hs[i].0, name));
        }
        assert(!key_matches(hs[0].0, name));
        assert(forall|i: int|
            0 <= i < hs.drop_first().len() ==> #[trigger] hs.drop_first()[i] == hs[i + 1]);
        assert(!has_header(hs.drop_first(), name)) by {
            if has_header(hs.drop_first(), name) {
                let i = choose|i: int|
                    0 <= i < hs.drop_first().len() && key_matches(
                        #[trigger] hs.drop_first()[i].0,
                        name,
                    );
                assert(key_matches(hs[i + 1].0, name));
            }
        }
        lemma_header_first_append(hs.drop_first(), name, entry);
        assert(cat[0] == hs[0]);
        assert(cat.drop_first() =~= hs.drop_first() + seq![entry]);
        assert(header_first(cat, name) == header_first(hs.drop_first() + seq![entry], name));
    }
}

/// An appended entry is present exactly when its name or an earlier entry
/// matches.
pub proof fn lemma_has_header_append(
    hs: Seq<(Seq<char>, Seq<char>)>,
    name: Seq<char>,
    entry: (Seq<char>, Seq<char>),
)
    ensures
        has_header(hs + seq![entry], name) <==> (has_header(hs, name) || key_matches(
            entry.0,
            name,
        )),
{
    let cat = hs + seq![entry];
    assert(cat[cat.len() - 1] == entry);
    assert(forall|i: int| 0 <= i < hs.len() ==> #[trigger] cat[i] == hs[i]);
    if has_header(cat, name) {
        let i = choose|i: int| 0 <= i < cat.len() && key_matches(#[trigger] cat[i].0, name);
        if i < hs.len() {
            assert(key_matches(hs[i].0, name));
        } else {
            assert(key_matches(entry.0, name));
        }
    }
    if has_header(hs, name) {
        let j = choose|j: int| 0 <= j < hs.len() && key_matches(#[trigger] hs[j].0, name);
        assert(key_matches(cat[j].0, name));
    }
    if key_matches(entry.0, name) {
        assert(key_matches(cat[cat.len() - 1].0, name));
    }
}

/// An ordered collection of HTTP header entries.
pub struct Headers {
    entries: Vec<(String, String)>,
}

impl View for Headers {
    type V = Seq<(Seq<char>, Seq<char>)>;

    closed spec fn view(&self) -> Seq<(Seq<char>, Seq<char>)> {
        self.entries.deep_view()
    }
}

impl Headers {
    /// An empty collection.
    pub fn new() -> (r: Self)
        ensures
            r@ == Seq::<(Seq<char>, Seq<char>)>::empty(),
    {
        let r = Headers { entries: Vec::new() };
        proof {
            assert(r@ =~= Seq::<(Seq<char>, Seq<char>)>::empty());
        }
        r
    }

    /// Wraps a list of name/value pairs.
    pub fn from_entries(entries: Vec<(String, String)>) -> (r: Self)
        ensures
            r@ == entries.deep_view(),
    {
        Headers { entries }
    }

    /// The entries, in order.
    pub fn entries(&self) -> (r: &Vec<(String, String)>)
        ensures
            r.deep_view() == self@,
    {
        &self.entries
    }

    /// The number of entries.
    pub fn len(&self) -> (r: usize)
        ensures
            r == self@.len(),
    {
        self.entries.len()
    }

    /// Whether some entry is named `name`.
    pub fn contains(&self, name: &str) -> (r: bool)
        ensures
            r == has_header(self@, name@),
    {
        let ghost deep = self@;
        let mut i: usize = 0;
        while i < self.entries.len()
            invariant
                i <= self.entries.len(),
                deep == self@,
                deep.len() == self.entries@.len(),
                forall|j: int| 0 <= j < i ==> !key_matches(#[trigger] deep[j].0, name@),
            decreases self.entries.len() - i,
        {
            proof {
                assert(deep[i as int].0 == self.entries@[i as int].0@);
            }
            if eq_ignore_ascii_case(self.entries[i].0.as_str(), name) {
                return true;
            }
            i = i + 1;
        }
        false
    }

    /// The value of the first entry named `name`, if any.
    pub fn get_first(&self, name: &str) -> (r: Option<&String>)
        ensures
            match r {
                Some(v) => header_first(self@, name@) == Some(v@),
                None => header_first(self@, name@) is None,
            },
    {
        let ghost deep = self@;
        let mut i: usize = 0;
        proof {
            assert(deep.skip(0) =~= deep);
        }
        while i < self.entries.len()
            invariant
                i <= self.entries.len(),
                deep == self@,
                deep.len() == self.entries@.len(),
                header_first(deep, name@) == header_first(deep.skip(i as int), name@),
            decreases self.entries.len() - i,
        {
            proof {
                assert(deep[i as int] == (self.entries@[i as int].0@, self.entries@[i as int].1@));
                assert(deep.skip(i as int)[0] == deep[i as int]);
                assert(deep.skip(i as int).drop_first() =~= deep.skip(i + 1));
            }
            if eq_ignore_ascii_case(self.entries[i].0.as_str(), name) {
                return Some(&self.entries[i].1);
            }
            i = i + 1;
        }
        proof {
            assert(deep.skip(i as int) =~= Seq::<(Seq<char>, Seq<char>)>::empty());
        }
        None
    }

    /// Removes every entry named `name`; returns the value the first of
    /// them held, if any.
    pub fn remove(&mut self, name: &str) -> (r: Option<String>)
        ensures
            final(self)@ == remove_header(old(self)@, name@),
            match r {
                Some(v) => header_first(old(self)@, name@) == Some(v@),
                None => header_first(old(self)@, name@) is None,
            },
    {
        let ghost deep = self@;
        let mut kept: Vec<(String, String)> = Vec::new();
        let mut found: Option<String> = None;
        let mut i: usize = 0;
        proof {
            assert(deep.skip(0) =~= deep);
            assert(kept.deep_view() =~= Seq::<(Seq<char>, Seq<char>)>::empty());
            assert(Seq::<(Seq<char>, Seq<char>)>::empty() + remove_header(deep, name@)
                =~= remove_header(deep, name@));
        }
        while i < self.entries.len()
            invariant
                i <= self.entries.len(),
                deep == self@,
                deep.len() == self.entries@.len(),
                remove_header(deep, name@) == kept.deep_view() + remove_header(
                    deep.skip(i as int),
                    name@,
                ),
                match found {
                    Some(v) => header_first(deep, name@) == Some(v@),
                    None => header_first(deep, name@) == header_first(deep.skip(i as int), name@),
                },
            decreases self.entries.len() - i,
        {
            proof {
                assert(deep[i as int] == (self.entries@[i as int].0@, self.entries@[i as int].1@));
                assert(deep.skip(i as int)[0] == deep[i as int]);
                assert(deep.skip(i as int).drop_first() =~= deep.skip(i + 1));
            }
            let e = &self.entries[i];
            if eq_ignore_ascii_case(e.0.as_str(), name) {
                if found.is_none() {
                    found = Some(e.1.clone());
                }
            } else {
                let ghost prev = kept.deep_view();
                kept.push((e.0.clone(), e.1.clone()));
                proof {
                    assert(kept.deep_view() =~= prev + seq![deep[i as int]]);
                    assert((prev + seq![deep[i as int]]) + remove_header(deep.skip(i + 1), name@)
                        =~= prev + (seq![deep[i as int]] + remove_header(deep.skip(i + 1), name@)));
                }
            }
            i = i + 1;
        }
        proof {
            assert(deep.skip(i as int) =~= Seq::<(Seq<char>, Seq<char>)>::empty());
            assert(kept.deep_view() + Seq::<(Seq<char>, Seq<char>)>::empty() =~= kept.deep_view());
        }
        self.entries = kept;
        found
    }

    /// Inserts `name: value`, replacing every entry already named `name`;
    /// the new entry goes to the back.
    pub fn insert(&mut self, name: String, value: String) -> (r: Option<String>)
        ensures
            final(self)@ == remove_header(old(self)@, name@) + seq![(name@, value@)],
            match r {
                Some(v) => header_first(old(self)@, name@) == Some(v@),
                None => header_first(old(self)@, name@) is None,
            },
    {
        let prior = self.remove(name.as_str());
        let ghost removed = self@;
        self.entries.push((name, value));
        proof {
            assert(self@ =~= removed + seq![(self.entries@.last().0@, self.entries@.last().1@)]);
        }
        prior
    }
}

} // verus!
