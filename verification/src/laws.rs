//! What follows from the contracts of the lists, whatever the list: the
//! order that pushes keep, the count of the values, and the changes that
//! undo each other.

use vstd::prelude::*;

verus! {

/// A change that a list offers, named by what it is given. The contracts of
/// the lists state each change on the sequence of values that the list holds;
/// `apply` gathers those statements, so that what follows from them can be
/// said of every list at once.
pub enum Op<T> {
    PushFront(T),
    PushBack(T),
    Insert(nat, T),
    PopFront,
    PopBack,
    Remove(nat),
}

/// Whether a list that holds `values` takes `op`: a place to insert at lies
/// within the values or right behind them, a place to remove from within them.
pub open spec fn accepts<T>(values: Seq<T>, op: Op<T>) -> bool {
    match op {
        Op::Insert(index, _) => index <= values.len(),
        Op::Remove(index) => index < values.len(),
        _ => true,
    }
}

/// What a list that held `values` holds after `op`.
pub open spec fn apply<T>(values: Seq<T>, op: Op<T>) -> Seq<T> {
    match op {
        Op::PushFront(value) => seq![value] + values,
        Op::PushBack(value) => values.push(value),
        Op::Insert(index, value) => values.insert(index as int, value),
        Op::PopFront => if values.len() == 0 {
            values
        } else {
            values.drop_first()
        },
        Op::PopBack => if values.len() == 0 {
            values
        } else {
            values.drop_last()
        },
        Op::Remove(index) => values.remove(index as int),
    }
}

/// Whether a list that holds `values` takes each of `ops`, one after the other.
pub open spec fn accepts_all<T>(values: Seq<T>, ops: Seq<Op<T>>) -> bool
    decreases ops.len(),
{
    ops.len() > 0 ==> accepts(values, ops.first()) && accepts_all(
        apply(values, ops.first()),
        ops.drop_first(),
    )
}

/// What a list that held `values` holds after each of `ops`, one after the other.
pub open spec fn apply_all<T>(values: Seq<T>, ops: Seq<Op<T>>) -> Seq<T>
    decreases ops.len(),
{
    if ops.len() == 0 {
        values
    } else {
        apply_all(apply(values, ops.first()), ops.drop_first())
    }
}

/// The number of values after `op`, counted from the number before it: one
/// more after a push or an insertion, one less after a removal, the same
/// after a pop that found nothing.
pub open spec fn count_after<T>(count: nat, op: Op<T>) -> nat {
    match op {
        Op::PushFront(_) | Op::PushBack(_) | Op::Insert(_, _) => count + 1,
        Op::PopFront | Op::PopBack | Op::Remove(_) => if count == 0 {
            0
        } else {
            (count - 1) as nat
        },
    }
}

/// The number of values after each of `ops`, counted in the same way.
pub open spec fn count_after_all<T>(count: nat, ops: Seq<Op<T>>) -> nat
    decreases ops.len(),
{
    if ops.len() == 0 {
        count
    } else {
        count_after_all(count_after(count, ops.first()), ops.drop_first())
    }
}

/// One `PushBack` for each of `values`, in their order.
pub open spec fn push_backs<T>(values: Seq<T>) -> Seq<Op<T>> {
    Seq::new(values.len(), |i: int| Op::PushBack(values[i]))
}

/// One `PushFront` for each of `values`, in their order.
pub open spec fn push_fronts<T>(values: Seq<T>) -> Seq<Op<T>> {
    Seq::new(values.len(), |i: int| Op::PushFront(values[i]))
}

/// Values pushed to the back stand behind what was there, in the order in
/// which they were pushed.
pub proof fn lemma_push_back_keeps_order<T>(start: Seq<T>, values: Seq<T>)
    ensures
        accepts_all(start, push_backs(values)),
        apply_all(start, push_backs(values)) == start + values,
    decreases values.len(),
{
    if values.len() > 0 {
        assert(push_backs(values).drop_first() =~= push_backs(values.drop_first()));
        lemma_push_back_keeps_order(start.push(values.first()), values.drop_first());
    }
}

/// Read front to back, a list that was empty gives back the values that
/// were pushed to its back, as they were pushed.
pub proof fn lemma_push_back_from_empty<T>(values: Seq<T>)
    ensures
        apply_all(Seq::empty(), push_backs(values)) == values,
{
    lemma_push_back_keeps_order(Seq::empty(), values);
}

/// Values pushed to the front stand before what was there, the last one
/// pushed first.
pub proof fn lemma_push_front_turns_order<T>(start: Seq<T>, values: Seq<T>)
    ensures
        accepts_all(start, push_fronts(values)),
        apply_all(start, push_fronts(values)) == values.reverse() + start,
    decreases values.len(),
{
    if values.len() > 0 {
        assert(push_fronts(values).drop_first() =~= push_fronts(values.drop_first()));
        lemma_push_front_turns_order(seq![values.first()] + start, values.drop_first());
    }
}

/// Read front to back, a list that was empty gives back the values that
/// were pushed to its front, turned round.
pub proof fn lemma_push_front_from_empty<T>(values: Seq<T>)
    ensures
        apply_all(Seq::empty(), push_fronts(values)) == values.reverse(),
{
    lemma_push_front_turns_order(Seq::empty(), values);
}

/// The number of values that a list holds can be kept by counting alone:
/// whatever the changes, as long as the list takes them, it holds as many
/// values as the count says.
pub proof fn lemma_count_follows_changes<T>(values: Seq<T>, ops: Seq<Op<T>>)
    requires
        accepts_all(values, ops),
    ensures
        apply_all(values, ops).len() == count_after_all(values.len(), ops),
    decreases ops.len(),
{
    if ops.len() > 0 {
        lemma_count_follows_changes(apply(values, ops.first()), ops.drop_first());
    }
}

/// A value popped off the back and pushed back at once leaves the list as
/// it was.
pub proof fn lemma_pop_back_then_push_back<T>(values: Seq<T>)
    requires
        values.len() > 0,
    ensures
        values.drop_last().push(values.last()) == values,
        apply(apply(values, Op::PopBack), Op::PushBack(values.last())) == values,
{
}

/// A value popped off the front and pushed to the front at once leaves the
/// list as it was.
pub proof fn lemma_pop_front_then_push_front<T>(values: Seq<T>)
    requires
        values.len() > 0,
    ensures
        seq![values.first()] + values.drop_first() == values,
        apply(apply(values, Op::PopFront), Op::PushFront(values.first())) == values,
{
}

/// A value inserted at a place and removed from it at once leaves the list
/// as it was, and the value removed is the one inserted.
pub proof fn lemma_insert_then_remove<T>(values: Seq<T>, index: nat, value: T)
    requires
        index <= values.len(),
    ensures
        values.insert(index as int, value)[index as int] == value,
        values.insert(index as int, value).remove(index as int) == values,
        accepts(apply(values, Op::Insert(index, value)), Op::Remove(index)),
        apply(apply(values, Op::Insert(index, value)), Op::Remove(index)) == values,
{
}

} // verus!
