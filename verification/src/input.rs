use vstd::prelude::*;

verus! {

/// A value given to a query: inline in the document or as a variable.
#[derive(Debug, PartialEq)]
pub enum InputValue<S> {
    Null,
    Scalar(S),
    Enum(String),
    Variable(String),
    List(Vec<InputValue<S>>),
    Object(Vec<(String, InputValue<S>)>),
}

/// Whether `copy` is a copy of `value` all the way down: the same variant, each scalar
/// a clone of the original one, equal names, and list items and object fields that are
/// copies in turn, in the same order.
pub open spec fn deep_cloned<S: Clone>(value: InputValue<S>, copy: InputValue<S>) -> bool
    decreases value,
{
    match value {
        InputValue::Null => copy is Null,
        InputValue::Scalar(a) => copy matches InputValue::Scalar(b) && cloned::<S>(a, b),
        InputValue::Enum(a) => copy matches InputValue::Enum(b) && a == b,
        InputValue::Variable(a) => copy matches InputValue::Variable(b) && a == b,
        InputValue::List(a) => match copy {
            InputValue::List(b) => {
                &&& a@.len() == b@.len()
                &&& forall|i: int| 0 <= i < a@.len() ==> deep_cloned(#[trigger] a@[i], b@[i])
            },
            _ => false,
        },
        InputValue::Object(a) => match copy {
            InputValue::Object(b) => {
                &&& a@.len() == b@.len()
                &&& forall|i: int| 0 <= i < a@.len() ==> {
                    &&& b@[i].0 == #[trigger] a@[i].0
                    &&& deep_cloned(a@[i].1, b@[i].1)
                }
            },
            _ => false,
        },
    }
}

/// What a copy keeps. A copy has the variant of its original: a scalar is copied to a
/// scalar cloned from it, null to null, and enum and variable names unchanged; a list to
/// a list of as many items and an object to an object with the same field names, in
/// order, each item or field value a copy of its original. Where cloning a scalar gives
/// it back unchanged, a copied scalar, enum, variable or null equals its original.
pub proof fn law_copy_keeps_values<S: Clone>(value: InputValue<S>, copy: InputValue<S>)
    requires
        deep_cloned(value, copy),
    ensures
        value is Null <==> copy is Null,
        value is Scalar ==> copy is Scalar && cloned::<S>(value->Scalar_0, copy->Scalar_0),
        value is Enum ==> copy == value,
        value is Variable ==> copy == value,
        value is List ==> {
            &&& copy is List
            &&& copy->List_0@.len() == value->List_0@.len()
            &&& forall|i: int| 0 <= i < value->List_0@.len()
                ==> deep_cloned(#[trigger] value->List_0@[i], copy->List_0@[i])
        },
        value is Object ==> {
            &&& copy is Object
            &&& copy->Object_0@.len() == value->Object_0@.len()
            &&& forall|i: int| 0 <= i < value->Object_0@.len() ==> {
                &&& copy->Object_0@[i].0 == #[trigger] value->Object_0@[i].0
                &&& deep_cloned(value->Object_0@[i].1, copy->Object_0@[i].1)
            }
        },
        (forall|a: S, b: S| #[trigger] cloned::<S>(a, b) ==> a == b)
            && !(value is List) && !(value is Object) ==> copy == value,
{
}

/// A copy of an input value, cloning its scalars.
fn clone_input<S: Clone>(value: &InputValue<S>) -> (copy: InputValue<S>)
    ensures
        deep_cloned(*value, copy),
    decreases value,
{
    match value {
        InputValue::Null => InputValue::Null,
        InputValue::Scalar(s) => {
            let clone_scalar = S::clone;
            InputValue::Scalar(clone_scalar(s))
        },
        InputValue::Enum(name) => InputValue::Enum(name.clone()),
        InputValue::Variable(name) => InputValue::Variable(name.clone()),
        InputValue::List(items) => {
            let mut copies: Vec<InputValue<S>> = Vec::new();
            let mut i: usize = 0;
            while i < items.len()
                invariant
                    *value == InputValue::<S>::List(*items),
                    i <= items@.len(),
                    copies@.len() == i,
                    forall|k: int| 0 <= k < i ==> deep_cloned(#[trigger] items@[k], copies@[k]),
                decreases items@.len() - i,
            {
                proof {
                    assert(decreases_to!(*value => value->List_0));
                    assert(decreases_to!(*items => items[i as int]));
                }
                copies.push(clone_input(&items[i]));
                i = i + 1;
            }
            InputValue::List(copies)
        },
        InputValue::Object(fields) => {
            let mut copies: Vec<(String, InputValue<S>)> = Vec::new();
            let mut i: usize = 0;
            while i < fields.len()
                invariant
                    *value == InputValue::<S>::Object(*fields),
                    i <= fields@.len(),
                    copies@.len() == i,
                    forall|k: int| 0 <= k < i ==> {
                        &&& copies@[k].0 == #[trigger] fields@[k].0
                        &&& deep_cloned(fields@[k].1, copies@[k].1)
                    },
                decreases fields@.len() - i,
            {
                proof {
                    assert(decreases_to!(*value => value->Object_0));
                    assert(decreases_to!(*fields => fields[i as int]));
                    assert(decreases_to!(fields[i as int] => fields[i as int].1));
                }
                copies.push((fields[i].0.clone(), clone_input(&fields[i].1)));
                i = i + 1;
            }
            InputValue::Object(copies)
        },
    }
}

impl<S: Clone> Clone for InputValue<S> {
    fn clone(&self) -> (copy: Self)
        ensures
            deep_cloned(*self, copy),
    {
        clone_input(self)
    }
}

/// The variables an input object defines: each field name with the value of its last
/// occurrence.
pub open spec fn input_object_map<S>(fields: Seq<(String, InputValue<S>)>) -> Map<Seq<char>, InputValue<S>>
    decreases fields.len(),
{
    if fields.len() == 0 {
        Map::empty()
    } else {
        input_object_map(fields.drop_last()).insert(fields.last().0@, fields.last().1)
    }
}

/// The names of an input object's fields, each once, in the order of their first occurrence.
pub open spec fn first_names<S>(fields: Seq<(String, InputValue<S>)>) -> Seq<Seq<char>>
    decreases fields.len(),
{
    if fields.len() == 0 {
        Seq::empty()
    } else {
        let init = first_names(fields.drop_last());
        if init.contains(fields.last().0@) {
            init
        } else {
            init.push(fields.last().0@)
        }
    }
}

/// The first-occurrence names of an input object are exactly its field names, each once.
pub proof fn lemma_first_names<S>(fields: Seq<(String, InputValue<S>)>)
    ensures
        forall|k: Seq<char>| #[trigger] first_names(fields).contains(k)
            <==> exists|i: int| 0 <= i < fields.len() && fields[i].0@ == k,
        forall|a: int, b: int| 0 <= a < b < first_names(fields).len()
            ==> #[trigger] first_names(fields)[a] != #[trigger] first_names(fields)[b],
    decreases fields.len(),
{
    if fields.len() > 0 {
        let init = fields.drop_last();
        lemma_first_names(init);
        let names = first_names(fields);
        let before = first_names(init);
        assert forall|k: Seq<char>| #[trigger] names.contains(k)
            implies exists|i: int| 0 <= i < fields.len() && fields[i].0@ == k by {
            if before.contains(k) {
                let i = choose|i: int| 0 <= i < init.len() && init[i].0@ == k;
                assert(fields[i] == init[i]);
            } else {
                let m = choose|m: int| 0 <= m < names.len() && names[m] == k;
                if m < before.len() {
                    assert(before[m] == k);
                }
                assert(fields[fields.len() - 1].0@ == k);
            }
        }
        assert forall|k: Seq<char>| (exists|i: int| 0 <= i < fields.len() && fields[i].0@ == k)
            implies #[trigger] names.contains(k) by {
            let i = choose|i: int| 0 <= i < fields.len() && fields[i].0@ == k;
            if i < init.len() {
                assert(init[i] == fields[i]);
                assert(before.contains(k));
                let m = choose|m: int| 0 <= m < before.len() && before[m] == k;
                assert(names[m] == k);
            } else if !before.contains(k) {
                assert(names[names.len() - 1] == k);
            }
        }
    }
}

/// The names of a list of borrowed variables, in order.
pub open spec fn borrowed_names<'a, S>(entries: Seq<(&'a String, &'a InputValue<S>)>) -> Seq<Seq<char>> {
    entries.map_values(|e: (&'a String, &'a InputValue<S>)| e.0@)
}

/// The map that a list of borrowed variables stands for.
pub open spec fn borrowed_map<'a, S>(entries: Seq<(&'a String, &'a InputValue<S>)>) -> Map<Seq<char>, InputValue<S>>
    decreases entries.len(),
{
    if entries.len() == 0 {
        Map::empty()
    } else {
        borrowed_map(entries.drop_last()).insert(entries.last().0@, *entries.last().1)
    }
}

/// Whether no name occurs twice in a list of borrowed variables.
pub open spec fn borrowed_distinct<'a, S>(entries: Seq<(&'a String, &'a InputValue<S>)>) -> bool {
    forall|i: int, j: int|
        0 <= i < entries.len() && 0 <= j < entries.len() && i != j
            ==> #[trigger] entries[i].0@ != #[trigger] entries[j].0@
}

/// The names of a list of borrowed variables are the domain of the map it stands for,
/// and, with distinct names, each entry gives its name's value.
pub proof fn lemma_borrowed_lookup<'a, S>(entries: Seq<(&'a String, &'a InputValue<S>)>)
    ensures
        forall|k: Seq<char>| #[trigger] borrowed_map(entries).dom().contains(k)
            <==> exists|i: int| 0 <= i < entries.len() && entries[i].0@ == k,
        borrowed_distinct(entries) ==> forall|i: int| 0 <= i < entries.len()
            ==> borrowed_map(entries)[#[trigger] entries[i].0@] == *entries[i].1,
    decreases entries.len(),
{
    if entries.len() > 0 {
        let init = entries.drop_last();
        lemma_borrowed_lookup(init);
        assert forall|k: Seq<char>| #[trigger] borrowed_map(entries).dom().contains(k)
            implies exists|i: int| 0 <= i < entries.len() && entries[i].0@ == k by {
            if k != entries.last().0@ {
                assert(borrowed_map(init).dom().contains(k));
                let i = choose|i: int| 0 <= i < init.len() && init[i].0@ == k;
                assert(entries[i] == init[i]);
            }
        }
        assert forall|k: Seq<char>| (exists|i: int| 0 <= i < entries.len() && entries[i].0@ == k)
            implies #[trigger] borrowed_map(entries).dom().contains(k) by {
            let i = choose|i: int| 0 <= i < entries.len() && entries[i].0@ == k;
            if i < init.len() {
                assert(init[i] == entries[i]);
                assert(borrowed_map(init).dom().contains(k));
            }
        }
        if borrowed_distinct(entries) {
            assert forall|i: int| 0 <= i < entries.len()
                implies borrowed_map(entries)[#[trigger] entries[i].0@] == *entries[i].1 by {
                if i < init.len() {
                    assert(init[i] == entries[i]);
                    assert(entries[i].0@ != entries.last().0@);
                }
            }
        }
    }
}

/// Giving a new value to the entry of an existing name changes the map at that name alone.
pub proof fn lemma_borrowed_replace<'a, S>(
    entries: Seq<(&'a String, &'a InputValue<S>)>,
    j: int,
    value: &'a InputValue<S>,
)
    requires
        borrowed_distinct(entries),
        0 <= j < entries.len(),
    ensures
        borrowed_map(entries.update(j, (entries[j].0, value))) == borrowed_map(entries).insert(entries[j].0@, *value),
    decreases entries.len(),
{
    let updated = entries.update(j, (entries[j].0, value));
    let init = entries.drop_last();
    if j == entries.len() - 1 {
        assert(updated.drop_last() =~= init);
        assert(borrowed_map(updated) =~= borrowed_map(entries).insert(entries[j].0@, *value));
    } else {
        assert(borrowed_distinct(init)) by {
            assert forall|a: int, b: int| 0 <= a < init.len() && 0 <= b < init.len() && a != b
                implies #[trigger] init[a].0@ != #[trigger] init[b].0@ by {
                assert(init[a] == entries[a]);
                assert(init[b] == entries[b]);
            }
        }
        lemma_borrowed_replace(init, j, value);
        assert(updated.drop_last() =~= init.update(j, (init[j].0, value)));
        assert(entries[j].0@ != entries.last().0@);
        assert(borrowed_map(updated) =~= borrowed_map(entries).insert(entries[j].0@, *value));
    }
}

/// The variables of a request: each name with its value, no name occurring twice.
/// The values are borrowed from the input object they were read from.
#[derive(Debug)]
pub struct Variables<'a, S> {
    entries: Vec<(&'a String, &'a InputValue<S>)>,
}

impl<'a, S> Variables<'a, S> {
    #[verifier::type_invariant]
    spec fn distinct_names(self) -> bool {
        borrowed_distinct(self.entries@)
    }

    /// Each variable's name with its value.
    pub closed spec fn view(&self) -> Map<Seq<char>, InputValue<S>> {
        borrowed_map(self.entries@)
    }

    /// The names of the variables, in the order in which they first occurred.
    pub closed spec fn names(&self) -> Seq<Seq<char>> {
        borrowed_names(self.entries@)
    }

    /// No variables.
    pub fn new() -> (v: Self)
        ensures
            v@ == Map::<Seq<char>, InputValue<S>>::empty(),
            v.names() == Seq::<Seq<char>>::empty(),
    {
        Variables { entries: Vec::new() }
    }

    /// The number of variables.
    pub fn len(&self) -> (n: usize)
        ensures
            n == self@.dom().len(),
    {
        proof {
            use_type_invariant(self);
            lemma_borrowed_len(self.entries@);
        }
        self.entries.len()
    }

    /// The value of the variable `name`, if there is one.
    pub fn get(&self, name: &String) -> (v: Option<&'a InputValue<S>>)
        ensures
            match v {
                Some(value) => self@.dom().contains(name@) && self@[name@] == *value,
                None => !self@.dom().contains(name@),
            },
    {
        proof { lemma_borrowed_lookup(self.entries@); }
        proof { use_type_invariant(self); }
        let mut i: usize = 0;
        while i < self.entries.len()
            invariant
                borrowed_distinct(self.entries@),
                i <= self.entries@.len(),
                forall|j: int| 0 <= j < i ==> #[trigger] self.entries@[j].0@ != name@,
            decreases self.entries@.len() - i,
        {
            if *self.entries[i].0 == *name {
                proof { lemma_borrowed_lookup(self.entries@); }
                assert(borrowed_map(self.entries@)[self.entries@[i as int].0@] == *self.entries@[i as int].1);
                return Some(self.entries[i].1);
            }
            i = i + 1;
        }
        None
    }

    /// The variables, in the order of `names`: the order in which their names first
    /// occurred. No name occurs twice.
    pub fn entries(&self) -> (l: &Vec<(&'a String, &'a InputValue<S>)>)
        ensures
            borrowed_map(l@) == self@,
            borrowed_names(l@) == self.names(),
            borrowed_distinct(l@),
    {
        proof { use_type_invariant(self); }
        &self.entries
    }
}

/// Distinct names count as many map entries as there are names.
proof fn lemma_borrowed_len<'a, S>(entries: Seq<(&'a String, &'a InputValue<S>)>)
    requires
        borrowed_distinct(entries),
    ensures
        borrowed_map(entries).dom().finite(),
        borrowed_map(entries).dom().len() == entries.len(),
    decreases entries.len(),
{
    if entries.len() > 0 {
        let init = entries.drop_last();
        assert(borrowed_distinct(init)) by {
            assert forall|a: int, b: int| 0 <= a < init.len() && 0 <= b < init.len() && a != b
                implies #[trigger] init[a].0@ != #[trigger] init[b].0@ by {
                assert(init[a] == entries[a]);
                assert(init[b] == entries[b]);
            }
        }
        lemma_borrowed_len(init);
        lemma_borrowed_lookup(init);
        if borrowed_map(init).dom().contains(entries.last().0@) {
            let i = choose|i: int| 0 <= i < init.len() && init[i].0@ == entries.last().0@;
            assert(init[i] == entries[i]);
        }
    }
}

impl<S> InputValue<S> {
    /// The variables an input object defines, borrowed from it: each field name with the
    /// value of its last occurrence. `None` for a value that is not an object.
    pub fn to_object_value(&self) -> (r: Option<Variables<'_, S>>)
        ensures
            match *self {
                InputValue::Object(fields) => {
                    &&& r is Some
                    &&& r->0@ == input_object_map(fields@)
                    &&& r->0.names() == first_names(fields@)
                },
                _ => r is None,
            },
    {
        match self {
            InputValue::Object(fields) => {
                let mut entries: Vec<(&String, &InputValue<S>)> = Vec::new();
                let mut i: usize = 0;
                while i < fields.len()
                    invariant
                        i <= fields@.len(),
                        borrowed_distinct(entries@),
                        borrowed_map(entries@) == input_object_map(fields@.take(i as int)),
                        borrowed_names(entries@) == first_names(fields@.take(i as int)),
                    decreases fields@.len() - i,
                {
                    let name = &fields[i].0;
                    let value = &fields[i].1;
                    assert(fields@.take(i + 1).drop_last() =~= fields@.take(i as int));
                    proof { lemma_borrowed_lookup(entries@); }
                    let mut j: usize = 0;
                    while j < entries.len() && *entries[j].0 != *name
                        invariant
                            j <= entries@.len(),
                            forall|k: int| 0 <= k < j ==> #[trigger] entries@[k].0@ != name@,
                        decreases entries@.len() - j,
                    {
                        j = j + 1;
                    }
                    if j < entries.len() {
                        proof { lemma_borrowed_replace(entries@, j as int, value); }
                        let ghost before = entries@;
                        assert(borrowed_names(before)[j as int] == name@);
                        let key = entries[j].0;
                        entries.set(j, (key, value));
                        assert(borrowed_distinct(entries@));
                        assert(borrowed_names(entries@) =~= borrowed_names(before));
                    } else {
                        assert(entries@.push((name, value)).drop_last() =~= entries@);
                        assert(!borrowed_names(entries@).contains(name@)) by {
                            if borrowed_names(entries@).contains(name@) {
                                let k = choose|k: int| 0 <= k < borrowed_names(entries@).len() && borrowed_names(entries@)[k] == name@;
                                assert(entries@[k].0@ != name@);
                            }
                        }
                        let ghost before = entries@;
                        entries.push((name, value));
                        assert(borrowed_names(entries@) =~= borrowed_names(before).push(name@));
                        assert(borrowed_distinct(entries@));
                    }
                    i = i + 1;
                }
                assert(fields@.take(fields@.len() as int) =~= fields@);
                Some(Variables { entries })
            },
            _ => None,
        }
    }
}

/// A name's value in an input object's variables is the value of its last occurrence.
pub proof fn lemma_last_occurrence_wins<S>(fields: Seq<(String, InputValue<S>)>, i: int)
    requires
        0 <= i < fields.len(),
        forall|j: int| i < j < fields.len() ==> #[trigger] fields[j].0@ != fields[i].0@,
    ensures
        input_object_map(fields).dom().contains(fields[i].0@),
        input_object_map(fields)[fields[i].0@] == fields[i].1,
    decreases fields.len(),
{
    if i < fields.len() - 1 {
        let init = fields.drop_last();
        assert forall|j: int| i < j < init.len() implies #[trigger] init[j].0@ != init[i].0@ by {
            assert(init[j] == fields[j]);
        }
        lemma_last_occurrence_wins(init, i);
        assert(init[i] == fields[i]);
    }
}

/// An input object defines exactly the variables named by its fields.
pub proof fn lemma_object_names<S>(fields: Seq<(String, InputValue<S>)>, name: Seq<char>)
    ensures
        input_object_map(fields).dom().contains(name)
            <==> exists|i: int| 0 <= i < fields.len() && fields[i].0@ == name,
    decreases fields.len(),
{
    if fields.len() > 0 {
        let init = fields.drop_last();
        lemma_object_names(init, name);
        if exists|i: int| 0 <= i < init.len() && init[i].0@ == name {
            let i = choose|i: int| 0 <= i < init.len() && init[i].0@ == name;
            assert(fields[i] == init[i]);
        }
        if exists|i: int| 0 <= i < fields.len() && fields[i].0@ == name {
            let i = choose|i: int| 0 <= i < fields.len() && fields[i].0@ == name;
            if i < init.len() {
                assert(fields[i] == init[i]);
            }
        }
    }
}

} // verus!
