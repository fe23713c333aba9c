//! Laws of the collection screens, stated over the model: what a whole
//! session of Add and Remove outcomes does to the number of notes.

use vstd::prelude::*;

use crate::note::NoteModel;

verus! {

/// One Add or Remove screen outcome, as the machine's `apply_add` and
/// `apply_remove` take it: the payload is `None` when the user cancelled.
pub enum CollectionOp {
    Add(Option<NoteModel>),
    Remove(Option<int>),
}

/// What a single outcome does to the collection, exactly as `apply_add` and
/// `apply_remove` ensure it: a completed Add appends, a completed Remove
/// takes out a position, a cancelled one changes nothing.
pub open spec fn apply_op(notes: Seq<NoteModel>, op: CollectionOp) -> Seq<NoteModel> {
    match op {
        CollectionOp::Add(Some(m)) => notes.push(m),
        CollectionOp::Add(None) => notes,
        CollectionOp::Remove(Some(i)) => if 0 <= i < notes.len() {
            notes.remove(i)
        } else {
            notes
        },
        CollectionOp::Remove(None) => notes,
    }
}

pub open spec fn apply_ops(notes: Seq<NoteModel>, ops: Seq<CollectionOp>) -> Seq<NoteModel>
    decreases ops.len(),
{
    if ops.len() == 0 {
        notes
    } else {
        apply_ops(apply_op(notes, ops[0]), ops.drop_first())
    }
}

/// Each completed Remove names a live position at the moment it runs.
pub open spec fn ops_valid(len: int, ops: Seq<CollectionOp>) -> bool
    decreases ops.len(),
{
    if ops.len() == 0 {
        true
    } else {
        (ops[0] matches CollectionOp::Remove(Some(i)) ==> 0 <= i < len) && ops_valid(
            len + match ops[0] {
                CollectionOp::Add(Some(_)) => 1int,
                CollectionOp::Remove(Some(_)) => -1int,
                _ => 0int,
            },
            ops.drop_first(),
        )
    }
}

/// The number of completed (not cancelled) Adds.
pub open spec fn completed_adds(ops: Seq<CollectionOp>) -> int
    decreases ops.len(),
{
    if ops.len() == 0 {
        0
    } else {
        (if ops[0] matches CollectionOp::Add(Some(_)) {
            1int
        } else {
            0int
        }) + completed_adds(ops.drop_first())
    }
}

/// The number of completed (not cancelled) Removes.
pub open spec fn completed_removes(ops: Seq<CollectionOp>) -> int
    decreases ops.len(),
{
    if ops.len() == 0 {
        0
    } else {
        (if ops[0] matches CollectionOp::Remove(Some(_)) {
            1int
        } else {
            0int
        }) + completed_removes(ops.drop_first())
    }
}

/// After any sequence of Add and Remove outcomes whose completed Removes
/// each named a live position, the collection's length is its starting
/// length plus the completed Adds minus the completed Removes; cancelled
/// outcomes never change the count.
pub proof fn lemma_add_remove_count(notes: Seq<NoteModel>, ops: Seq<CollectionOp>)
    requires
        ops_valid(notes.len() as int, ops),
    ensures
        apply_ops(notes, ops).len() == notes.len() + completed_adds(ops) - completed_removes(
            ops,
        ),
    decreases ops.len(),
{
    if ops.len() > 0 {
        lemma_add_remove_count(apply_op(notes, ops[0]), ops.drop_first());
    }
}

} // verus!
