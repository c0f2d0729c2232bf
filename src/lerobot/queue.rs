//! The bounded command queue, held in a `heapless::Vec`.
use vstd::prelude::*;

use crate::lerobot::robot::ServoPositionCommand;

verus! {

/// How many move commands a servo state can hold at once.
pub const COMMAND_QUEUE_SIZE: usize = 16;

#[verifier::external_type_specification]
#[verifier::external_body]
#[verifier::reject_recursive_types(T)]
pub struct ExHeaplessVec<T, const N: usize>(heapless::Vec<T, N>);

/// A bounded stack of move commands.
pub type CommandQueue = heapless::Vec<ServoPositionCommand, COMMAND_QUEUE_SIZE>;

/// The commands a queue holds, oldest first.
pub uninterp spec fn queue_items(q: CommandQueue) -> Seq<ServoPositionCommand>;

/// Relies on heapless::Vec::new: the new vector holds nothing.
#[verifier::external_body]
pub(crate) fn queue_new() -> (q: CommandQueue)
    ensures
        queue_items(q) == Seq::<ServoPositionCommand>::empty(),
{
    heapless::Vec::new()
}

/// Relies on heapless::Vec::push: below capacity the item is appended and
/// `Ok(())` returned; at capacity the vector is left as it was and the item
/// handed back.
#[verifier::external_body]
pub(crate) fn queue_push(q: &mut CommandQueue, item: ServoPositionCommand) -> (r: Result<
    (),
    ServoPositionCommand,
>)
    ensures
        (r is Ok) == (queue_items(*old(q)).len() < COMMAND_QUEUE_SIZE),
        r is Ok ==> queue_items(*final(q)) == queue_items(*old(q)).push(item),
        r is Err ==> r->Err_0 == item,
        r is Err ==> *final(q) == *old(q),
{
    q.push(item)
}

/// Relies on heapless::Vec::pop: removes and returns the last item, or
/// returns `None` and leaves an empty vector as it was.
#[verifier::external_body]
pub(crate) fn queue_pop(q: &mut CommandQueue) -> (r: Option<ServoPositionCommand>)
    ensures
        (r is None) == (queue_items(*old(q)).len() == 0),
        r is None ==> *final(q) == *old(q),
        r is Some ==> r == Some(queue_items(*old(q)).last()),
        r is Some ==> queue_items(*final(q)) == queue_items(*old(q)).drop_last(),
{
    q.pop()
}

} // verus!
