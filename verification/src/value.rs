use vstd::prelude::*;

verus! {

/// Whether no key occurs twice in the list, compared by text.
pub open spec fn keys_distinct<V>(entries: Seq<(String, V)>) -> bool {
    forall|i: int, j: int|
        0 <= i < entries.len() && 0 <= j < entries.len() && i != j
            ==> #[trigger] entries[i].0@ != #[trigger] entries[j].0@
}

/// Whether `i` is the first position at which `key` occurs among the keys of `entries`.
pub open spec fn first_key_at<V>(entries: Seq<(String, V)>, key: Seq<char>, i: int) -> bool {
    &&& 0 <= i < entries.len()
    &&& entries[i].0@ == key
    &&& forall|j: int| 0 <= j < i ==> #[trigger] entries[j].0@ != key
}

/// The first position of `key` among the keys of `entries`, or `None`.
pub open spec fn key_position<V>(entries: Seq<(String, V)>, key: Seq<char>) -> Option<int> {
    if exists|i: int| first_key_at(entries, key, i) {
        Some(choose|i: int| first_key_at(entries, key, i))
    } else {
        None
    }
}

/// The fields of an object after `add_field(key, value)`: an existing field of that name
/// keeps its place and takes the new value; otherwise the field is appended.
pub open spec fn with_field<S>(entries: Seq<(String, Value<S>)>, key: String, value: Value<S>) -> Seq<(String, Value<S>)> {
    match key_position(entries, key@) {
        Some(i) => entries.update(i, (entries[i].0, value)),
        None => entries.push((key, value)),
    }
}

/// A position found by a scan from the front is the one `key_position` names.
pub proof fn lemma_key_position_found<V>(entries: Seq<(String, V)>, key: Seq<char>, i: int)
    requires
        first_key_at(entries, key, i),
    ensures
        key_position(entries, key) == Some(i),
{
    let c = choose|j: int| first_key_at(entries, key, j);
    assert(first_key_at(entries, key, c));
    if c < i {
        assert(entries[c].0@ != key);
    } else if i < c {
        assert(entries[i].0@ != key);
    }
}

/// A key that no entry carries has no position.
pub proof fn lemma_key_position_absent<V>(entries: Seq<(String, V)>, key: Seq<char>)
    requires
        forall|j: int| 0 <= j < entries.len() ==> #[trigger] entries[j].0@ != key,
    ensures
        key_position(entries, key) is None,
{
}

/// An object of a GraphQL response: named fields, no name occurring twice.
#[derive(Debug, PartialEq)]
pub struct Object<S> {
    key_value_list: Vec<(String, Value<S>)>,
}

/// A value of a GraphQL response.
#[derive(Debug, PartialEq)]
pub enum Value<S> {
    Null,
    Scalar(S),
    List(Vec<Value<S>>),
    Object(Object<S>),
}

impl<S> Object<S> {
    #[verifier::type_invariant]
    spec fn distinct_keys(self) -> bool {
        keys_distinct(self.key_value_list@)
    }

    /// The fields of the object, in the order in which they were first added.
    pub closed spec fn entries(&self) -> Seq<(String, Value<S>)> {
        self.key_value_list@
    }

    /// Creates an object without fields.
    pub fn new() -> (o: Self)
        ensures
            o.entries() == Seq::<(String, Value<S>)>::empty(),
    {
        Object { key_value_list: Vec::new() }
    }

    /// The number of fields.
    pub fn field_count(&self) -> (n: usize)
        ensures
            n == self.entries().len(),
    {
        self.key_value_list.len()
    }

    /// The fields of the object, in order; no name occurs twice.
    pub fn key_value_list(&self) -> (l: &Vec<(String, Value<S>)>)
        ensures
            l@ == self.entries(),
            keys_distinct(l@),
    {
        proof { use_type_invariant(self); }
        &self.key_value_list
    }

    /// An object with exactly the given fields, whose names are distinct.
    pub(crate) fn from_distinct(list: Vec<(String, Value<S>)>) -> (o: Self)
        requires
            keys_distinct(list@),
        ensures
            o.entries() == list@,
    {
        Object { key_value_list: list }
    }

    /// Consumes the object and hands out its fields in order.
    pub fn into_key_value_list(self) -> (l: Vec<(String, Value<S>)>)
        ensures
            l@ == self.entries(),
            keys_distinct(l@),
    {
        proof { use_type_invariant(&self); }
        self.key_value_list
    }

    /// Adds a field. A field of the same name keeps its place, takes the new value and
    /// its former value is returned; otherwise the field is appended and `None` returned.
    pub fn add_field(&mut self, key: String, value: Value<S>) -> (former: Option<Value<S>>)
        ensures
            final(self).entries() == with_field(old(self).entries(), key, value),
            former == (match key_position(old(self).entries(), key@) {
                Some(i) => Some(old(self).entries()[i].1),
                None => None::<Value<S>>,
            }),
    {
        proof { use_type_invariant(&*self); }
        let ghost before = self.key_value_list@;
        let mut list: Vec<(String, Value<S>)> = Vec::new();
        std::mem::swap(&mut list, &mut self.key_value_list);
        let mut i: usize = 0;
        while i < list.len()
            invariant
                list@ == before,
                before == old(self).entries(),
                keys_distinct(before),
                i <= list.len(),
                forall|j: int| 0 <= j < i ==> #[trigger] before[j].0@ != key@,
            decreases list.len() - i,
        {
            if list[i].0 == key {
                proof { lemma_key_position_found(before, key@, i as int); }
                let (name, old_value) = list.remove(i);
                list.insert(i, (name, value));
                assert(list@ =~= before.update(i as int, (before[i as int].0, value)));
                assert(keys_distinct(list@));
                self.key_value_list = list;
                return Some(old_value);
            }
            i = i + 1;
        }
        proof { lemma_key_position_absent(before, key@); }
        list.push((key, value));
        assert(keys_distinct(list@));
        self.key_value_list = list;
        None
    }
}

} // verus!
