//! The slot that holds the handle of the active connection.
//!
//! There is one slot, and it holds at most one handle. It is read and
//! written by swaps only: each operation puts a value in and hands out what
//! was there, in one step. A caller that shares the slot between tasks keeps
//! it behind a lock and holds the lock for one operation at a time.

use vstd::multiset::Multiset;
use vstd::prelude::*;

verus! {

/// The slot for the handle of the active connection. `H` is the type of
/// a handle; the slot never looks inside one.
pub struct MqttClientState<H> {
    client: Option<H>,
}

impl<H> View for MqttClientState<H> {
    type V = Option<H>;

    closed spec fn view(&self) -> Option<H> {
        self.client
    }
}

/// One operation on the slot.
pub enum SlotOp<H> {
    /// A connect puts the handle of its connection into the slot.
    Install(H),
    /// A disconnect empties the slot.
    Clear,
}

/// What the slot holds after `op`.
pub open spec fn apply<H>(slot: Option<H>, op: SlotOp<H>) -> Option<H> {
    match op {
        SlotOp::Install(handle) => Some(handle),
        SlotOp::Clear => None,
    }
}

/// What the slot holds after the operations `ops`, performed in order.
pub open spec fn apply_all<H>(slot: Option<H>, ops: Seq<SlotOp<H>>) -> Option<H>
    decreases ops.len(),
{
    if ops.len() == 0 {
        slot
    } else {
        apply(apply_all(slot, ops.drop_last()), ops.last())
    }
}

/// The handles that a slot holds: one or none.
pub open spec fn held<H>(slot: Option<H>) -> Multiset<H> {
    match slot {
        Some(handle) => Multiset::singleton(handle),
        None => Multiset::empty(),
    }
}

/// The handles that `ops` put into the slot.
pub open spec fn installed<H>(ops: Seq<SlotOp<H>>) -> Multiset<H>
    decreases ops.len(),
{
    if ops.len() == 0 {
        Multiset::empty()
    } else {
        installed(ops.drop_last()).add(
            match ops.last() {
                SlotOp::Install(handle) => Multiset::singleton(handle),
                SlotOp::Clear => Multiset::empty(),
            },
        )
    }
}

/// The handles that the operations `ops` handed out to their callers,
/// starting from `slot`: each operation hands out what it found.
pub open spec fn handed_out<H>(slot: Option<H>, ops: Seq<SlotOp<H>>) -> Multiset<H>
    decreases ops.len(),
{
    if ops.len() == 0 {
        Multiset::empty()
    } else {
        handed_out(slot, ops.drop_last()).add(held(apply_all(slot, ops.drop_last())))
    }
}

/// After a connect has put its handle in, the slot holds exactly that
/// handle, whatever it held before.
pub proof fn lemma_install_holds_one<H>(slot: Option<H>, handle: H)
    ensures
        apply(slot, SlotOp::Install(handle)) == Some(handle),
        held(apply(slot, SlotOp::Install(handle))).len() == 1,
{
}

/// A disconnect on an empty slot leaves it empty and hands nothing out.
pub proof fn lemma_clear_on_empty<H>()
    ensures
        apply(None::<H>, SlotOp::Clear) == None::<H>,
        handed_out(None::<H>, seq![SlotOp::<H>::Clear]) == Multiset::<H>::empty(),
{
    let ops = seq![SlotOp::<H>::Clear];
    assert(ops.drop_last() =~= Seq::<SlotOp<H>>::empty());
    assert(handed_out(None::<H>, ops.drop_last()) == Multiset::<H>::empty());
    assert(apply_all(None::<H>, ops.drop_last()) == None::<H>);
    assert(handed_out(None::<H>, ops) =~= Multiset::<H>::empty());
}

/// In whatever order connects and disconnects reach the slot, the last of
/// them decides what it holds: the handle of that connect, or nothing. The
/// slot never holds more than one handle.
pub proof fn lemma_last_operation_decides<H>(slot: Option<H>, ops: Seq<SlotOp<H>>)
    requires
        ops.len() > 0,
    ensures
        apply_all(slot, ops) == match ops.last() {
            SlotOp::Install(handle) => Some(handle),
            SlotOp::Clear => None,
        },
        held(apply_all(slot, ops)).len() <= 1,
{
}

/// No handle is lost: the handle the slot began with and those put in are
/// exactly those handed out and the one still held.
pub proof fn lemma_no_handle_is_lost<H>(slot: Option<H>, ops: Seq<SlotOp<H>>)
    ensures
        held(slot).add(installed(ops)) == handed_out(slot, ops).add(held(apply_all(slot, ops))),
    decreases ops.len(),
{
    if ops.len() == 0 {
        assert(held(slot).add(installed(ops)) =~= handed_out(slot, ops).add(
            held(apply_all(slot, ops)),
        ));
    } else {
        lemma_no_handle_is_lost(slot, ops.drop_last());
        assert(held(slot).add(installed(ops)) =~= handed_out(slot, ops).add(
            held(apply_all(slot, ops)),
        ));
    }
}

impl<H> MqttClientState<H> {
    /// An empty slot.
    pub fn new() -> (state: Self)
        ensures
            state@ is None,
    {
        MqttClientState { client: None }
    }

    /// Whether the slot holds a handle.
    pub fn is_connected(&self) -> (connected: bool)
        ensures
            connected == (self@ is Some),
    {
        self.client.is_some()
    }

    /// Puts `handle` into the slot and hands out the handle that it
    /// displaces, if there was one.
    pub fn replace(&mut self, handle: H) -> (displaced: Option<H>)
        ensures
            final(self)@ == apply(old(self)@, SlotOp::Install(handle)),
            displaced == old(self)@,
    {
        let displaced = self.client.take();
        self.client = Some(handle);
        displaced
    }

    /// Empties the slot and hands out the handle that it held, if there was
    /// one.
    pub fn take(&mut self) -> (taken: Option<H>)
        ensures
            final(self)@ == apply(old(self)@, SlotOp::<H>::Clear),
            taken == old(self)@,
    {
        self.client.take()
    }
}

} // verus!
