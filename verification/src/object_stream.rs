use vstd::prelude::*;

use crate::response::{ExecutionOutcome, GraphQLResponse};
use crate::value::{Object, Value};

verus! {

/// What polling the stream of one field gave.
#[derive(Debug)]
pub enum FieldPoll<R> {
    /// The stream has ended.
    Ended,
    /// The stream produced an item.
    Ready(R),
    /// The stream has nothing yet.
    Pending,
}

/// What the driver of an object stream does next.
#[derive(Debug)]
pub enum PollStep<S> {
    /// Poll the stream of the field at this position, and report with `on_field`.
    PollField(usize),
    /// Every field has an item: yield this response.
    Emit(GraphQLResponse<S>),
    /// Some field has no item yet: wait to be polled again.
    Wait,
    /// A field stream has ended: the object stream ends.
    End,
}

/// Whether no field name occurs twice, compared by text.
pub open spec fn names_distinct(names: Seq<String>) -> bool {
    forall|i: int, j: int|
        0 <= i < names.len() && 0 <= j < names.len() && i != j ==> #[trigger] names[i]@ != #[trigger] names[j]@
}

/// The number of filled slots.
pub open spec fn count_filled<R>(slots: Seq<Option<R>>) -> nat
    decreases slots.len(),
{
    if slots.len() == 0 {
        0
    } else {
        count_filled(slots.drop_last()) + if slots.last() is Some {
            1nat
        } else {
            0nat
        }
    }
}

/// The first empty slot at or after `from`, or the number of slots where there is none.
pub open spec fn next_empty<R>(slots: Seq<Option<R>>, from: int) -> int
    decreases slots.len() - from,
{
    if from < 0 || from >= slots.len() {
        slots.len() as int
    } else if slots[from] is None {
        from
    } else {
        next_empty(slots, from + 1)
    }
}

/// The value a slot contributes to an emitted object: the item's value, or null for a
/// failed item.
pub open spec fn slot_value<S, E>(slot: Option<Result<Value<S>, E>>) -> Value<S> {
    match slot {
        Some(Ok(v)) => v,
        _ => Value::Null,
    }
}

/// The fields of the object emitted for a full set of slots: every field name with the
/// value its slot contributes, in order.
pub open spec fn emitted_fields<S, E>(names: Seq<String>, slots: Seq<Option<Result<Value<S>, E>>>) -> Seq<(String, Value<S>)> {
    Seq::new(names.len(), |i: int| (names[i], slot_value(slots[i])))
}

/// Whether an outcome is the object with exactly these fields as data, with no field errors.
pub open spec fn is_object_outcome<S>(outcome: ExecutionOutcome<S>, fields: Seq<(String, Value<S>)>) -> bool {
    match outcome {
        Ok((Value::Object(o), errors)) => o.entries() == fields && errors@.len() == 0,
        _ => false,
    }
}

/// Slots that are all empty.
pub open spec fn all_empty<R>(n: nat) -> Seq<Option<R>> {
    Seq::new(n, |i: int| None::<R>)
}

/// Scanning for the next field to poll stays within the slots, lands on an empty one
/// when it lands inside, and skips only filled ones.
pub proof fn lemma_next_empty<R>(slots: Seq<Option<R>>, from: int)
    requires
        0 <= from,
    ensures
        from <= next_empty(slots, from) || next_empty(slots, from) == slots.len(),
        next_empty(slots, from) <= slots.len(),
        next_empty(slots, from) < slots.len() ==> slots[next_empty(slots, from)] is None,
        forall|j: int| from <= j < next_empty(slots, from) ==> #[trigger] slots[j] is Some,
    decreases slots.len() - from,
{
    if from < slots.len() && slots[from] is Some {
        lemma_next_empty(slots, from + 1);
    }
}

/// The count of filled slots never exceeds their number, and reaches it exactly when
/// every slot is filled.
pub proof fn lemma_count_filled<R>(slots: Seq<Option<R>>)
    ensures
        count_filled(slots) <= slots.len(),
        count_filled(slots) == slots.len() <==> forall|i: int| 0 <= i < slots.len() ==> #[trigger] slots[i] is Some,
    decreases slots.len(),
{
    if slots.len() > 0 {
        let init = slots.drop_last();
        lemma_count_filled(init);
        if count_filled(slots) == slots.len() {
            assert forall|i: int| 0 <= i < slots.len() implies #[trigger] slots[i] is Some by {
                if i < slots.len() - 1 {
                    assert(init[i] == slots[i]);
                }
            }
        }
        if forall|i: int| 0 <= i < slots.len() ==> #[trigger] slots[i] is Some {
            assert forall|i: int| 0 <= i < init.len() implies #[trigger] init[i] is Some by {
                assert(init[i] == slots[i]);
            }
            assert(slots[slots.len() - 1] is Some);
        }
    }
}

/// Filling an empty slot raises the count by one.
pub proof fn lemma_count_fill<R>(slots: Seq<Option<R>>, i: int, item: R)
    requires
        0 <= i < slots.len(),
        slots[i] is None,
    ensures
        count_filled(slots.update(i, Some(item))) == count_filled(slots) + 1,
    decreases slots.len(),
{
    let filled = slots.update(i, Some(item));
    if i == slots.len() - 1 {
        assert(filled.drop_last() =~= slots.drop_last());
    } else {
        lemma_count_fill(slots.drop_last(), i, item);
        assert(filled.drop_last() =~= slots.drop_last().update(i, Some(item)));
    }
}

/// Empty slots count as nothing.
pub proof fn lemma_count_empty<R>(n: nat)
    ensures
        count_filled(all_empty::<R>(n)) == 0,
    decreases n,
{
    if n > 0 {
        lemma_count_empty::<R>((n - 1) as nat);
        assert(all_empty::<R>(n).drop_last() =~= all_empty::<R>((n - 1) as nat));
    }
}

/// An emitted response is OK: the gathered object is its data and it carries no field errors.
pub proof fn law_emitted_response_is_ok<S>(outcome: ExecutionOutcome<S>, fields: Seq<(String, Value<S>)>)
    requires
        is_object_outcome(outcome, fields),
    ensures
        outcome is Ok,
        outcome->Ok_0.0 is Object,
        outcome->Ok_0.1@.len() == 0,
{
}

/// A round that starts from `slots` ends in an emission exactly when every field
/// already has an item; otherwise it polls the first field that has none.
pub proof fn law_round_emits_iff_complete<R>(slots: Seq<Option<R>>)
    ensures
        (next_empty(slots, 0) >= slots.len() && count_filled(slots) == slots.len())
            <==> forall|i: int| 0 <= i < slots.len() ==> #[trigger] slots[i] is Some,
        next_empty(slots, 0) < slots.len() ==> slots[next_empty(slots, 0)] is None,
{
    lemma_next_empty(slots, 0);
    lemma_count_filled(slots);
}

/// What an emission is. A round whose scan has passed the last field, with an item for
/// every field, emits an OK response without field errors whose data is an object with
/// one field per field of the merger, named alike and in order: the field at position
/// `i` holds the value `v` of its item whenever that item is `Ok(v)`, whatever its
/// shape, and null exactly when the item failed. Afterwards no field has an item, none
/// is awaited, and the next round begins by polling the first field.
pub proof fn law_emission<S, E>(
    names: Seq<String>,
    slots: Seq<Option<Result<Value<S>, E>>>,
    j: int,
    step: PollStep<S>,
    after: ObjectPoll<S, E>,
)
    requires
        names.len() == slots.len(),
        j >= slots.len(),
        forall|i: int| 0 <= i < slots.len() ==> #[trigger] slots[i] is Some,
        ObjectPoll::<S, E>::scan_ends_at(names, slots, j, step, after),
    ensures
        step is Emit,
        step->Emit_0.outcome() is Ok,
        step->Emit_0.outcome()->Ok_0.1@.len() == 0,
        step->Emit_0.outcome()->Ok_0.0 is Object,
        ({
            let entries = step->Emit_0.outcome()->Ok_0.0->Object_0.entries();
            &&& entries.len() == names.len()
            &&& forall|i: int| 0 <= i < names.len() ==> #[trigger] entries[i].0 == names[i]
            &&& forall|i: int| 0 <= i < names.len() ==> match #[trigger] slots[i] {
                Some(Ok(v)) => entries[i].1 == v,
                _ => entries[i].1 == Value::<S>::Null,
            }
        }),
        after.slots().len() == slots.len(),
        forall|i: int| 0 <= i < after.slots().len() ==> #[trigger] after.slots()[i] is None,
        after.polling() is None,
        slots.len() > 0 ==> next_empty(after.slots(), 0) == 0,
{
    lemma_count_filled(slots);
    let entries = step->Emit_0.outcome()->Ok_0.0->Object_0.entries();
    assert forall|i: int| 0 <= i < names.len() implies match #[trigger] slots[i] {
        Some(Ok(v)) => entries[i].1 == v,
        _ => entries[i].1 == Value::<S>::Null,
    } by {
        assert(entries[i] == emitted_fields(names, slots)[i]);
    }
    assert forall|i: int| 0 <= i < names.len() implies #[trigger] entries[i].0 == names[i] by {
        assert(entries[i] == emitted_fields(names, slots)[i]);
    }
}

/// How a scan ends short of an emission. Stopped at a field inside the object, it asks
/// for that field to be polled and awaits it, keeping every item gathered so far; run
/// past the last field while some field still has no item, it waits, keeping every item.
pub proof fn law_scan_without_emission<S, E>(
    names: Seq<String>,
    slots: Seq<Option<Result<Value<S>, E>>>,
    j: int,
    step: PollStep<S>,
    after: ObjectPoll<S, E>,
)
    requires
        0 <= j,
        ObjectPoll::<S, E>::scan_ends_at(names, slots, j, step, after),
    ensures
        after.names() == names,
        j < slots.len() ==> {
            &&& step matches PollStep::PollField(f) && f == j
            &&& after.polling() == Some(j)
            &&& after.slots() == slots
        },
        j >= slots.len() && (exists|i: int| 0 <= i < slots.len() && #[trigger] slots[i] is None) ==> {
            &&& step is Wait
            &&& after.polling() is None
            &&& after.slots() == slots
        },
{
    lemma_count_filled(slots);
}

/// The state that merges the streams of an object's fields into a stream of whole
/// objects: each field contributes one item per object; an object is emitted once every
/// field has an item, and the next object starts from no items.
pub struct ObjectPoll<S, E> {
    names: Vec<String>,
    ready: Vec<Option<Result<Value<S>, E>>>,
    filled: usize,
    cursor: usize,
    awaiting: bool,
}

impl<S, E> ObjectPoll<S, E> {
    /// The names of the fields, in order.
    pub closed spec fn names(&self) -> Seq<String> {
        self.names@
    }

    /// The item each field has contributed to the object being gathered.
    pub closed spec fn slots(&self) -> Seq<Option<Result<Value<S>, E>>> {
        self.ready@
    }

    /// The field whose poll result is awaited, if any.
    pub closed spec fn polling(&self) -> Option<int> {
        if self.awaiting {
            Some(self.cursor as int)
        } else {
            None
        }
    }

    /// The state is consistent: one slot per field, distinct field names, the count of
    /// filled slots kept, and an awaited field whose slot is empty.
    pub closed spec fn wf(&self) -> bool {
        &&& self.names@.len() == self.ready@.len()
        &&& names_distinct(self.names@)
        &&& self.filled == count_filled(self.ready@)
        &&& self.awaiting ==> self.cursor < self.ready@.len() && self.ready@[self.cursor as int] is None
    }

    /// How a scan that stopped at `j` over `slots` ends: polling the field at `j`, or,
    /// past the last field, emitting the object when every slot is filled (and starting
    /// over from empty slots) or waiting otherwise.
    pub open spec fn scan_ends_at(
        names: Seq<String>,
        slots: Seq<Option<Result<Value<S>, E>>>,
        j: int,
        step: PollStep<S>,
        after: Self,
    ) -> bool {
        &&& after.names() == names
        &&& if j < slots.len() {
            &&& step == PollStep::<S>::PollField(j as usize)
            &&& after.slots() == slots
            &&& after.polling() == Some(j)
        } else if count_filled(slots) == slots.len() {
            &&& step is Emit
            &&& is_object_outcome(step->Emit_0.outcome(), emitted_fields(names, slots))
            &&& after.slots() == all_empty::<Result<Value<S>, E>>(slots.len())
            &&& after.polling() is None
        } else {
            &&& step is Wait
            &&& after.slots() == slots
            &&& after.polling() is None
        }
    }

    /// A merger for the fields of `object`, with no items yet.
    pub fn for_object<T>(object: &Object<T>) -> (p: Self)
        ensures
            p.wf(),
            p.names().len() == object.entries().len(),
            forall|i: int| 0 <= i < p.names().len() ==> #[trigger] p.names()[i] == object.entries()[i].0,
            p.slots() == all_empty::<Result<Value<S>, E>>(object.entries().len()),
            p.polling() is None,
    {
        let fields = object.key_value_list();
        let n = fields.len();
        let mut names: Vec<String> = Vec::new();
        let mut ready: Vec<Option<Result<Value<S>, E>>> = Vec::new();
        let mut i: usize = 0;
        while i < n
            invariant
                n == fields@.len(),
                i <= n,
                names@.len() == i,
                ready@ == all_empty::<Result<Value<S>, E>>(i as nat),
                forall|k: int| 0 <= k < i ==> #[trigger] names@[k] == fields@[k].0,
            decreases n - i,
        {
            names.push(fields[i].0.clone());
            ready.push(None);
            assert(ready@ =~= all_empty::<Result<Value<S>, E>>((i + 1) as nat));
            i = i + 1;
        }
        proof {
            lemma_count_empty::<Result<Value<S>, E>>(n as nat);
            assert forall|a: int, b: int|
                0 <= a < names@.len() && 0 <= b < names@.len() && a != b
                implies #[trigger] names@[a]@ != #[trigger] names@[b]@ by {
                assert(names@[a] == fields@[a].0);
                assert(names@[b] == fields@[b].0);
            }
        }
        ObjectPoll { names, ready, filled: 0, cursor: 0, awaiting: false }
    }

    /// The field whose poll result the merger awaits, if any.
    pub fn polling_field(&self) -> (f: Option<usize>)
        ensures
            match f {
                Some(i) => self.polling() == Some(i as int),
                None => self.polling() is None,
            },
    {
        if self.awaiting {
            Some(self.cursor)
        } else {
            None
        }
    }

    /// Scans from `from` for the next field without an item and decides the next step.
    fn scan_from(&mut self, from: usize) -> (step: PollStep<S>)
        requires
            old(self).wf(),
            from <= old(self).slots().len(),
        ensures
            final(self).wf(),
            Self::scan_ends_at(
                old(self).names(),
                old(self).slots(),
                next_empty(old(self).slots(), from as int),
                step,
                *final(self),
            ),
    {
        let n = self.ready.len();
        let mut j = from;
        proof { lemma_next_empty(self.ready@, from as int); }
        while j < n && self.ready[j].is_some()
            invariant
                n == self.ready@.len(),
                from <= j <= n,
                next_empty(self.ready@, j as int) == next_empty(self.ready@, from as int),
            decreases n - j,
        {
            j = j + 1;
        }
        if j < n {
            self.cursor = j;
            self.awaiting = true;
            return PollStep::PollField(j);
        }
        self.awaiting = false;
        if self.filled < n {
            return PollStep::Wait;
        }
        proof { lemma_count_filled(self.ready@); }
        let ghost names = self.names@;
        let ghost slots = self.ready@;
        let mut taken: Vec<Option<Result<Value<S>, E>>> = Vec::new();
        let mut k: usize = 0;
        while k < n
            invariant
                k <= n,
                taken@ == all_empty::<Result<Value<S>, E>>(k as nat),
            decreases n - k,
        {
            taken.push(None);
            assert(taken@ =~= all_empty::<Result<Value<S>, E>>((k + 1) as nat));
            k = k + 1;
        }
        std::mem::swap(&mut taken, &mut self.ready);
        self.filled = 0;
        proof { lemma_count_empty::<Result<Value<S>, E>>(n as nat); }
        let mut fields: Vec<(String, Value<S>)> = Vec::new();
        let mut k: usize = 0;
        while k < n
            invariant
                n == slots.len(),
                n == names.len(),
                names == self.names@,
                k <= n,
                taken@ == slots.subrange(k as int, n as int),
                fields@ =~= emitted_fields(names, slots).subrange(0, k as int),
            decreases n - k,
        {
            let slot = taken.remove(0);
            let value = match slot {
                Some(Ok(v)) => v,
                _ => Value::Null,
            };
            fields.push((self.names[k].clone(), value));
            k = k + 1;
        }
        proof {
            assert(fields@ =~= emitted_fields(names, slots));
            assert forall|a: int, b: int|
                0 <= a < fields@.len() && 0 <= b < fields@.len() && a != b
                implies #[trigger] fields@[a].0@ != #[trigger] fields@[b].0@ by {
                assert(names[a] == fields@[a].0);
                assert(names[b] == fields@[b].0);
            }
        }
        let object = Object::from_distinct(fields);
        PollStep::Emit(GraphQLResponse::from_result(Ok((Value::Object(object), Vec::new()))))
    }

    /// Starts a round of polling: the first field without an item is to be polled, or,
    /// where every field has one, the object is emitted.
    pub fn begin_round(&mut self) -> (step: PollStep<S>)
        requires
            old(self).wf(),
        ensures
            final(self).wf(),
            Self::scan_ends_at(
                old(self).names(),
                old(self).slots(),
                next_empty(old(self).slots(), 0),
                step,
                *final(self),
            ),
    {
        self.scan_from(0)
    }

    /// Takes the poll result of the awaited field. An ended stream ends the object
    /// stream; an item fills the field's slot; then the scan goes on after that field.
    pub fn on_field(&mut self, event: FieldPoll<Result<Value<S>, E>>) -> (step: PollStep<S>)
        requires
            old(self).wf(),
            old(self).polling() is Some,
        ensures
            final(self).wf(),
            ({
                let c = old(self).polling()->0;
                match event {
                    FieldPoll::Ended => {
                        &&& step is End
                        &&& final(self).names() == old(self).names()
                        &&& final(self).slots() == old(self).slots()
                        &&& final(self).polling() is None
                    },
                    FieldPoll::Pending => Self::scan_ends_at(
                        old(self).names(),
                        old(self).slots(),
                        next_empty(old(self).slots(), c + 1),
                        step,
                        *final(self),
                    ),
                    FieldPoll::Ready(item) => Self::scan_ends_at(
                        old(self).names(),
                        old(self).slots().update(c, Some(item)),
                        next_empty(old(self).slots().update(c, Some(item)), c + 1),
                        step,
                        *final(self),
                    ),
                }
            }),
    {
        let c = self.cursor;
        let n = self.ready.len();
        assert(c < n);
        match event {
            FieldPoll::Ended => {
                self.awaiting = false;
                PollStep::End
            },
            FieldPoll::Pending => {
                self.awaiting = false;
                self.scan_from(c + 1)
            },
            FieldPoll::Ready(item) => {
                proof { lemma_count_fill(self.ready@, c as int, item); lemma_count_filled(self.ready@.update(c as int, Some(item))); }
                self.ready.set(c, Some(item));
                self.filled = self.filled + 1;
                self.awaiting = false;
                self.scan_from(c + 1)
            },
        }
    }
}

} // verus!
