//! What a series of operations leaves in a store that started out empty.

use crate::store::StoreView;
use crate::task::TaskView;
use crate::text::{is_blank, lemma_trimmed, lemma_trimmed_idempotent, trimmed};
use vstd::prelude::*;

verus! {

/// One operation on a store.
pub enum Op {
    /// Offer a description as a new task.
    Add(Seq<char>),
    /// Mark the task with this identifier as done.
    Complete(nat),
}

/// The store after one operation.
pub open spec fn apply(store: StoreView, op: Op) -> StoreView {
    match op {
        Op::Add(description) => store.with_added(description),
        Op::Complete(id) => store.with_completed(id),
    }
}

/// The store after the operations `ops`, in order, on an empty store.
pub open spec fn run(ops: Seq<Op>) -> StoreView
    decreases ops.len(),
{
    if ops.len() == 0 {
        StoreView::empty()
    } else {
        apply(run(ops.drop_last()), ops.last())
    }
}

/// The descriptions that `ops` put into the store: of every `Add` with a
/// description that is not blank, the trimmed description, in order.
pub open spec fn kept_texts(ops: Seq<Op>) -> Seq<Seq<char>>
    decreases ops.len(),
{
    if ops.len() == 0 {
        Seq::empty()
    } else {
        let before = kept_texts(ops.drop_last());
        match ops.last() {
            Op::Add(description) => if is_blank(description) {
                before
            } else {
                before.push(trimmed(description))
            },
            Op::Complete(_) => before,
        }
    }
}

/// The identifiers that `ops` marked as done: those of every `Complete` that
/// came when a task with that identifier was already there.
pub open spec fn done_ids(ops: Seq<Op>) -> Set<nat>
    decreases ops.len(),
{
    if ops.len() == 0 {
        Set::empty()
    } else {
        let before = done_ids(ops.drop_last());
        match ops.last() {
            Op::Add(_) => before,
            Op::Complete(id) => if 1 <= id <= kept_texts(ops.drop_last()).len() {
                before.insert(id)
            } else {
                before
            },
        }
    }
}

/// One `Add` for each of `descriptions`, in order.
pub open spec fn adds(descriptions: Seq<Seq<char>>) -> Seq<Op> {
    Seq::new(descriptions.len(), |i: int| Op::Add(descriptions[i]))
}

/// In a valid store identifiers start at 1, no two tasks share one, the counter
/// is above them all, and no description is empty.
pub proof fn lemma_valid_store(store: StoreView)
    requires
        store.valid(),
    ensures
        forall|i: int, j: int|
            0 <= i < j < store.tasks.len() ==> (#[trigger] store.tasks[i]).id < (
            #[trigger] store.tasks[j]).id,
        forall|i: int|
            0 <= i < store.tasks.len() ==> 1 <= (#[trigger] store.tasks[i]).id < store.next_id,
        forall|i: int| 0 <= i < store.tasks.len() ==> (#[trigger] store.tasks[i]).description.len() > 0,
        forall|id: nat| store.has(id) <==> 1 <= id <= store.tasks.len(),
{
    assert forall|id: nat| store.has(id) <==> 1 <= id <= store.tasks.len() by {
        if 1 <= id <= store.tasks.len() {
            assert(store.tasks[id - 1].id == id);
        }
    }
}

/// Both operations keep a valid store valid.
pub proof fn lemma_apply_valid(store: StoreView, op: Op)
    requires
        store.valid(),
    ensures
        apply(store, op).valid(),
{
    match op {
        Op::Add(description) => {
            lemma_trimmed(description);
            lemma_trimmed_idempotent(description);
        },
        Op::Complete(id) => {},
    }
}

/// Neither operation lowers the counter, removes a task, changes an
/// identifier or a description, or takes a flag back; only `Complete` sets a
/// flag, and only that of the task it names.
pub proof fn lemma_apply_keeps(store: StoreView, op: Op, i: int)
    requires
        0 <= i < store.tasks.len(),
    ensures
        apply(store, op).next_id >= store.next_id,
        i < apply(store, op).tasks.len(),
        apply(store, op).tasks[i].id == store.tasks[i].id,
        apply(store, op).tasks[i].description == store.tasks[i].description,
        apply(store, op).tasks[i].completed == (store.tasks[i].completed || op == Op::Complete(
            store.tasks[i].id,
        )),
{
}

/// Marking a task that is not there changes nothing.
pub proof fn lemma_complete_absent(store: StoreView, id: nat)
    requires
        !store.has(id),
    ensures
        store.with_completed(id) == store,
{
    assert(store.with_completed(id).tasks =~= store.tasks);
}

/// Marking a task sets its flag, and marking it a second time finds it again
/// and leaves the store as the first time did.
pub proof fn lemma_complete_twice(store: StoreView, id: nat)
    ensures
        forall|i: int|
            0 <= i < store.tasks.len() && store.tasks[i].id == id ==> (
            #[trigger] store.with_completed(id).tasks[i]).completed,
        store.with_completed(id).has(id) == store.has(id),
        store.with_completed(id).with_completed(id) == store.with_completed(id),
{
    let once = store.with_completed(id);
    assert(once.with_completed(id).tasks =~= once.tasks);
    if store.has(id) {
        let i = choose|i: int| 0 <= i < store.tasks.len() && (#[trigger] store.tasks[i]).id == id;
        assert(once.tasks[i].id == id);
    }
    if once.has(id) {
        let i = choose|i: int| 0 <= i < once.tasks.len() && (#[trigger] once.tasks[i]).id == id;
    }
}

/// Only tasks that are there get marked, and a task stays once it is there.
pub proof fn lemma_done_ids(ops: Seq<Op>)
    ensures
        forall|id: nat| done_ids(ops).contains(id) ==> 1 <= id <= kept_texts(ops).len(),
        ops.len() > 0 ==> kept_texts(ops.drop_last()).len() <= kept_texts(ops).len(),
    decreases ops.len(),
{
    if ops.len() > 0 {
        let earlier = ops.drop_last();
        lemma_done_ids(earlier);
        assert forall|id: nat| done_ids(ops).contains(id) implies 1 <= id <= kept_texts(
            ops,
        ).len() by {
            if !done_ids(earlier).contains(id) {
                assert(ops.last() == Op::Complete(id));
            }
        }
    }
}

/// Whatever the operations, the store they leave is valid and holds exactly
/// the kept descriptions, in the order they were added, numbered from 1
/// without gaps; a task is done exactly if it was marked after it was added.
pub proof fn lemma_run(ops: Seq<Op>)
    ensures
        run(ops).valid(),
        run(ops).tasks.len() == kept_texts(ops).len(),
        forall|k: int|
            0 <= k < kept_texts(ops).len() ==> #[trigger] run(ops).tasks[k] == (TaskView {
                id: (k + 1) as nat,
                description: kept_texts(ops)[k],
                completed: done_ids(ops).contains((k + 1) as nat),
            }),
    decreases ops.len(),
{
    if ops.len() > 0 {
        let before = run(ops.drop_last());
        lemma_run(ops.drop_last());
        lemma_done_ids(ops.drop_last());
        lemma_apply_valid(before, ops.last());
        assert forall|k: int| 0 <= k < kept_texts(ops).len() implies #[trigger] run(ops).tasks[k]
            == (TaskView {
            id: (k + 1) as nat,
            description: kept_texts(ops)[k],
            completed: done_ids(ops).contains((k + 1) as nat),
        }) by {
            if k < before.tasks.len() {
            }
        }
    }
}

/// A series of adds, none of them blank, hands out 1, 2, 3, ...: the add at
/// position `k`, counted from 0, finds the counter at `k + 1`, takes that as
/// the new task's identifier and leaves the counter one higher.
pub proof fn lemma_adds_in_sequence(descriptions: Seq<Seq<char>>, k: int)
    requires
        0 <= k < descriptions.len(),
        forall|i: int| 0 <= i < descriptions.len() ==> !is_blank(#[trigger] descriptions[i]),
    ensures
        run(adds(descriptions.subrange(0, k))).next_id == k + 1,
        run(adds(descriptions.subrange(0, k + 1))).next_id == k + 2,
        run(adds(descriptions.subrange(0, k + 1))).tasks.last().id == k + 1,
{
    lemma_adds_kept(descriptions.subrange(0, k));
    lemma_adds_kept(descriptions.subrange(0, k + 1));
    lemma_run(adds(descriptions.subrange(0, k)));
    lemma_run(adds(descriptions.subrange(0, k + 1)));
}

/// After a series of adds, none of them blank, the store lists as many tasks
/// as there were adds, in that order, each with its trimmed description and
/// none of them done.
pub proof fn lemma_adds_listed(descriptions: Seq<Seq<char>>)
    requires
        forall|i: int| 0 <= i < descriptions.len() ==> !is_blank(#[trigger] descriptions[i]),
    ensures
        run(adds(descriptions)).tasks.len() == descriptions.len(),
        forall|k: int|
            0 <= k < descriptions.len() ==> #[trigger] run(adds(descriptions)).tasks[k]
                == (TaskView {
                id: (k + 1) as nat,
                description: trimmed(descriptions[k]),
                completed: false,
            }),
{
    lemma_adds_kept(descriptions);
    lemma_run(adds(descriptions));
}

/// What a series of adds, none of them blank, keeps and marks: every
/// description, trimmed, and no identifier.
pub proof fn lemma_adds_kept(descriptions: Seq<Seq<char>>)
    requires
        forall|i: int| 0 <= i < descriptions.len() ==> !is_blank(#[trigger] descriptions[i]),
    ensures
        kept_texts(adds(descriptions)).len() == descriptions.len(),
        forall|k: int|
            0 <= k < descriptions.len() ==> #[trigger] kept_texts(adds(descriptions))[k]
                == trimmed(descriptions[k]),
        done_ids(adds(descriptions)) == Set::<nat>::empty(),
    decreases descriptions.len(),
{
    if descriptions.len() > 0 {
        let shorter = descriptions.drop_last();
        lemma_adds_kept(shorter);
        assert(adds(descriptions).drop_last() =~= adds(shorter));
    }
}

} // verus!
