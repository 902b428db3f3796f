//! A header mapping: header names to values, each name held once.
//!
//! The mapping keeps its fields in the order in which their names first came
//! in. Its view is the mathematical map from name to value.

use crate::text::str_eq;
use vstd::prelude::*;

verus! {

/// The map that a list of fields amounts to when a later field replaces an
/// earlier one of the same name.
pub open spec fn collapse(fields: Seq<(Seq<char>, Seq<char>)>) -> Map<Seq<char>, Seq<char>>
    decreases fields.len(),
{
    if fields.len() == 0 {
        Map::empty()
    } else {
        collapse(fields.drop_last()).insert(fields.last().0, fields.last().1)
    }
}

/// No two fields of the list have the same name.
pub open spec fn distinct_names(fields: Seq<(Seq<char>, Seq<char>)>) -> bool {
    forall|i: int, j: int| 0 <= i < j < fields.len() ==> fields[i].0 != fields[j].0
}

/// Some field of the list has the name `name`.
pub open spec fn names(fields: Seq<(Seq<char>, Seq<char>)>, name: Seq<char>) -> bool {
    exists|i: int| 0 <= i < fields.len() && #[trigger] fields[i].0 == name
}

/// The fields of a list of pairs of strings, as text.
pub open spec fn as_fields(pairs: Seq<(String, String)>) -> Seq<(Seq<char>, Seq<char>)> {
    pairs.map_values(|pair: (String, String)| (pair.0@, pair.1@))
}

/// Where the field named `name` stands in a list that has one.
pub open spec fn place(fields: Seq<(Seq<char>, Seq<char>)>, name: Seq<char>) -> int {
    choose|i: int| 0 <= i < fields.len() && #[trigger] fields[i].0 == name
}

/// The list after `name` was given the value `value`: the field of that name
/// keeps its place and has the new value, and a new name comes last.
pub open spec fn put(fields: Seq<(Seq<char>, Seq<char>)>, name: Seq<char>, value: Seq<char>) -> Seq<
    (Seq<char>, Seq<char>),
> {
    if names(fields, name) {
        fields.update(place(fields, name), (name, value))
    } else {
        fields.push((name, value))
    }
}

/// The list that is left when the fields of a list are put one after the
/// other: each name once, where it first stood, with its last value.
pub open spec fn settle(fields: Seq<(Seq<char>, Seq<char>)>) -> Seq<(Seq<char>, Seq<char>)>
    decreases fields.len(),
{
    if fields.len() == 0 {
        Seq::empty()
    } else {
        put(settle(fields.drop_last()), fields.last().0, fields.last().1)
    }
}

/// The collapsed map knows exactly the names of the list.
pub proof fn lemma_collapse_names(fields: Seq<(Seq<char>, Seq<char>)>, name: Seq<char>)
    ensures
        collapse(fields).contains_key(name) <==> names(fields, name),
    decreases fields.len(),
{
    if fields.len() > 0 {
        let front = fields.drop_last();
        lemma_collapse_names(front, name);
        if names(fields, name) {
            let i = choose|i: int| 0 <= i < fields.len() && #[trigger] fields[i].0 == name;
            if i < front.len() {
                assert(front[i].0 == name);
            }
        }
        if names(front, name) {
            let i = choose|i: int| 0 <= i < front.len() && #[trigger] front[i].0 == name;
            assert(fields[i].0 == name);
        }
        if fields.last().0 == name {
            assert(fields[fields.len() - 1].0 == name);
        }
    }
}

/// The collapsed map gives a name the value of the last field that has it.
pub proof fn lemma_collapse_value(fields: Seq<(Seq<char>, Seq<char>)>, at: int)
    requires
        0 <= at < fields.len(),
        forall|j: int| at < j < fields.len() ==> fields[j].0 != fields[at].0,
    ensures
        collapse(fields).contains_key(fields[at].0),
        collapse(fields)[fields[at].0] == fields[at].1,
    decreases fields.len(),
{
    if at < fields.len() - 1 {
        let front = fields.drop_last();
        assert(front[at] == fields[at]);
        assert forall|j: int| at < j < front.len() implies front[j].0 != front[at].0 by {
            assert(front[j] == fields[j]);
        }
        lemma_collapse_value(front, at);
    }
}

/// Adding a field at the end is an insertion into the collapsed map.
pub proof fn lemma_collapse_push(fields: Seq<(Seq<char>, Seq<char>)>, field: (Seq<char>, Seq<char>))
    ensures
        collapse(fields.push(field)) == collapse(fields).insert(field.0, field.1),
{
    assert(fields.push(field).drop_last() == fields);
}

/// Where names are distinct, giving one field a new value is an insertion
/// into the collapsed map.
pub proof fn lemma_collapse_update(
    fields: Seq<(Seq<char>, Seq<char>)>,
    at: int,
    value: Seq<char>,
)
    requires
        0 <= at < fields.len(),
        distinct_names(fields),
    ensures
        distinct_names(fields.update(at, (fields[at].0, value))),
        collapse(fields.update(at, (fields[at].0, value))) == collapse(fields).insert(
            fields[at].0,
            value,
        ),
{
    let name = fields[at].0;
    let after = fields.update(at, (name, value));
    let expected = collapse(fields).insert(name, value);
    assert(distinct_names(after)) by {
        assert forall|i: int, j: int| 0 <= i < j < after.len() implies after[i].0 != after[j].0 by {
            assert(after[i].0 == fields[i].0);
            assert(after[j].0 == fields[j].0);
        }
    }
    lemma_collapse_value(after, at);
    assert forall|key: Seq<char>| #[trigger]
        collapse(after).contains_key(key) == expected.contains_key(key) by {
        lemma_collapse_names(after, key);
        lemma_collapse_names(fields, key);
        if names(after, key) {
            let i = choose|i: int| 0 <= i < after.len() && #[trigger] after[i].0 == key;
            assert(fields[i].0 == key);
        }
        if names(fields, key) {
            let i = choose|i: int| 0 <= i < fields.len() && #[trigger] fields[i].0 == key;
            assert(after[i].0 == key);
        }
    }
    assert forall|key: Seq<char>| #[trigger]
        collapse(after).contains_key(key) implies collapse(after)[key] == expected[key] by {
        if key != name {
            lemma_collapse_names(after, key);
            let i = choose|i: int| 0 <= i < after.len() && #[trigger] after[i].0 == key;
            assert(after[i] == fields[i]);
            lemma_collapse_value(after, i);
            lemma_collapse_value(fields, i);
        }
    }
    assert(collapse(after) =~= expected);
}

/// Putting a field into a list of distinct names leaves the names distinct
/// and is an insertion into the collapsed map.
pub proof fn lemma_put(fields: Seq<(Seq<char>, Seq<char>)>, name: Seq<char>, value: Seq<char>)
    requires
        distinct_names(fields),
    ensures
        distinct_names(put(fields, name, value)),
        collapse(put(fields, name, value)) == collapse(fields).insert(name, value),
{
    if names(fields, name) {
        lemma_collapse_update(fields, place(fields, name), value);
    } else {
        lemma_collapse_push(fields, (name, value));
        let after = fields.push((name, value));
        assert forall|i: int, j: int| 0 <= i < j < after.len() implies after[i].0 != after[j].0 by {
            if j == fields.len() {
                assert(fields[i].0 != name);
            }
        }
    }
}

/// Settling a list leaves each name once and changes nothing of what the list
/// maps a name to.
pub proof fn lemma_settle(fields: Seq<(Seq<char>, Seq<char>)>)
    ensures
        distinct_names(settle(fields)),
        collapse(settle(fields)) == collapse(fields),
    decreases fields.len(),
{
    if fields.len() > 0 {
        lemma_settle(fields.drop_last());
        lemma_put(settle(fields.drop_last()), fields.last().0, fields.last().1);
    }
}

/// The collapsed map of a list of distinct names has as many names as the
/// list has fields.
pub proof fn lemma_collapse_len(fields: Seq<(Seq<char>, Seq<char>)>)
    requires
        distinct_names(fields),
    ensures
        collapse(fields).dom().finite(),
        collapse(fields).dom().len() == fields.len(),
    decreases fields.len(),
{
    if fields.len() > 0 {
        let front = fields.drop_last();
        lemma_collapse_len(front);
        lemma_collapse_names(front, fields.last().0);
        if names(front, fields.last().0) {
            let i = choose|i: int| 0 <= i < front.len() && #[trigger] front[i].0 == fields.last().0;
            assert(fields[i].0 == fields[fields.len() - 1].0);
        }
    }
}

/// A mapping from header names to header values.
#[derive(Debug)]
pub struct Headers {
    entries: Vec<(String, String)>,
}

impl View for Headers {
    type V = Map<Seq<char>, Seq<char>>;

    /// The value that each name maps to.
    open spec fn view(&self) -> Map<Seq<char>, Seq<char>> {
        collapse(self.fields())
    }
}

impl Headers {
    /// The fields of the mapping in the order in which it is walked.
    pub closed spec fn fields(&self) -> Seq<(Seq<char>, Seq<char>)> {
        as_fields(self.entries@)
    }

    #[verifier::type_invariant]
    spec fn each_name_once(&self) -> bool {
        distinct_names(self.fields())
    }

    /// An empty mapping.
    pub fn new() -> (headers: Headers)
        ensures
            headers.fields() == Seq::<(Seq<char>, Seq<char>)>::empty(),
            headers@ == Map::<Seq<char>, Seq<char>>::empty(),
    {
        let headers = Headers { entries: Vec::new() };
        assert(headers.fields() =~= Seq::empty());
        headers
    }

    /// The number of names.
    pub fn len(&self) -> (count: usize)
        ensures
            count == self.fields().len(),
            count == self@.dom().len(),
            distinct_names(self.fields()),
    {
        proof {
            use_type_invariant(self);
            lemma_collapse_len(self.fields());
        }
        self.entries.len()
    }

    /// Whether the mapping holds no name.
    pub fn is_empty(&self) -> (empty: bool)
        ensures
            empty == (self.fields().len() == 0),
            empty == (self@ == Map::<Seq<char>, Seq<char>>::empty()),
    {
        proof {
            if self.fields().len() > 0 {
                lemma_collapse_names(self.fields(), self.fields()[0].0);
                assert(self@.contains_key(self.fields()[0].0));
            }
        }
        self.entries.len() == 0
    }

    /// The fields as pairs of strings, in the order in which the mapping is
    /// walked.
    pub fn entries(&self) -> (pairs: &Vec<(String, String)>)
        ensures
            as_fields(pairs@) == self.fields(),
            distinct_names(self.fields()),
    {
        proof {
            use_type_invariant(self);
        }
        &self.entries
    }

    /// Where the field named `name` stands, if there is one.
    fn position(&self, name: &str) -> (found: Option<usize>)
        ensures
            match found {
                Some(at) => at < self.fields().len() && self.fields()[at as int].0 == name@,
                None => !names(self.fields(), name@),
            },
    {
        let mut at: usize = 0;
        while at < self.entries.len()
            invariant
                at <= self.entries@.len(),
                forall|i: int| 0 <= i < at ==> self.fields()[i].0 != name@,
            decreases self.entries@.len() - at,
        {
            if str_eq(self.entries[at].0.as_str(), name) {
                return Some(at);
            }
            at += 1;
        }
        None
    }

    /// Whether the mapping holds the name `name`.
    pub fn contains_key(&self, name: &str) -> (held: bool)
        ensures
            held == self@.contains_key(name@),
    {
        proof {
            lemma_collapse_names(self.fields(), name@);
        }
        self.position(name).is_some()
    }

    /// The value that `name` maps to, if the mapping holds the name.
    pub fn get(&self, name: &str) -> (value: Option<&String>)
        ensures
            match value {
                Some(text) => self@.contains_key(name@) && text@ == self@[name@],
                None => !self@.contains_key(name@),
            },
    {
        proof {
            use_type_invariant(self);
            lemma_collapse_names(self.fields(), name@);
        }
        match self.position(name) {
            Some(at) => {
                proof {
                    lemma_collapse_value(self.fields(), at as int);
                }
                Some(&self.entries[at].1)
            },
            None => None,
        }
    }

    /// Maps `name` to `value`. A name that the mapping holds already keeps its
    /// place and gets the new value; the value it had is handed back. A new
    /// name comes last.
    pub fn insert(&mut self, name: String, value: String) -> (previous: Option<String>)
        ensures
            final(self)@ == old(self)@.insert(name@, value@),
            match previous {
                Some(text) => old(self)@.contains_key(name@) && text@ == old(self)@[name@],
                None => !old(self)@.contains_key(name@),
            },
            final(self).fields() == put(old(self).fields(), name@, value@),
    {
        proof {
            use_type_invariant(&*self);
            lemma_collapse_names(self.fields(), name@);
        }
        let found = self.position(name.as_str());
        let ghost before = self.entries@;
        let mut entries: Vec<(String, String)> = Vec::new();
        proof {
            assert(as_fields(entries@) =~= Seq::empty());
        }
        std::mem::swap(&mut self.entries, &mut entries);
        let previous = match found {
            Some(at) => {
                let previous = entries[at].1.clone();
                proof {
                    let fields = as_fields(before);
                    assert(fields[at as int].0 == name@);
                    assert(place(fields, name@) == at);
                    lemma_collapse_value(fields, at as int);
                    lemma_put(fields, name@, value@);
                    assert(as_fields(before.update(at as int, (name, value))) =~= put(
                        fields,
                        name@,
                        value@,
                    ));
                }
                entries.set(at, (name, value));
                Some(previous)
            },
            None => {
                proof {
                    let fields = as_fields(before);
                    lemma_put(fields, name@, value@);
                    assert(as_fields(before.push((name, value))) =~= put(fields, name@, value@));
                }
                entries.push((name, value));
                None
            },
        };
        std::mem::swap(&mut self.entries, &mut entries);
        previous
    }
}

impl Clone for Headers {
    /// A mapping with the same fields in the same order.
    fn clone(&self) -> (copy: Headers)
        ensures
            copy.fields() == self.fields(),
            copy@ == self@,
    {
        proof {
            use_type_invariant(self);
        }
        let mut entries: Vec<(String, String)> = Vec::new();
        let mut at: usize = 0;
        while at < self.entries.len()
            invariant
                at <= self.entries@.len(),
                entries@.len() == at,
                forall|i: int| 0 <= i < at ==> entries@[i] == self.entries@[i],
            decreases self.entries@.len() - at,
        {
            let name = self.entries[at].0.clone();
            let value = self.entries[at].1.clone();
            entries.push((name, value));
            at += 1;
        }
        assert(entries@ =~= self.entries@);
        Headers { entries }
    }
}

impl Default for Headers {
    /// An empty mapping.
    fn default() -> (headers: Headers)
        ensures
            headers.fields() == Seq::<(Seq<char>, Seq<char>)>::empty(),
            headers@ == Map::<Seq<char>, Seq<char>>::empty(),
    {
        Headers::new()
    }
}

} // verus!
