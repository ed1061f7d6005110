//! The bounded queue that holds the shared blocks of one size class.
//!
//! The queue is [`crossbeam_queue::ArrayQueue`]. Its contents and its limit are named here, and
//! every operation is described over those names for a caller with exclusive access.

use crossbeam_queue::ArrayQueue;
use vstd::prelude::*;

use crate::block::Block;

verus! {

/// Declares [`crossbeam_queue::ArrayQueue`]; nothing inside it is visible to proofs.
#[verifier::external_type_specification]
#[verifier::external_body]
#[verifier::reject_recursive_types(T)]
pub struct ExArrayQueue<T>(crossbeam_queue::ArrayQueue<T>);

/// The blocks in a queue, oldest first.
pub uninterp spec fn queue_items(queue: ArrayQueue<Block>) -> Seq<Block>;

/// The number of blocks that a queue was made to hold.
pub uninterp spec fn queue_limit(queue: ArrayQueue<Block>) -> nat;

/// The limits that a queue can be made with: at least one block, and no more slots than an
/// allocation can hold, a slot taking at most 64 bytes.
pub open spec fn valid_limit(limit: int) -> bool {
    0 < limit && limit * 64 <= isize::MAX
}

/// Calls [`ArrayQueue::new`]. The contract claims that the new queue is empty and has the given
/// limit. The call panics on a limit of zero and on one whose slots no allocation can hold.
#[verifier::external_body]
pub(crate) fn queue_new(limit: usize) -> (queue: ArrayQueue<Block>)
    requires
        valid_limit(limit as int),
    ensures
        queue_items(queue) == Seq::<Block>::empty(),
        queue_limit(queue) == limit,
{
    ArrayQueue::new(limit)
}

/// Calls [`ArrayQueue::push`]. The contract claims, for a caller with exclusive access, that the
/// block becomes the newest item when the queue holds fewer items than its limit, and is
/// otherwise handed back with the queue unchanged. The limit never changes.
#[verifier::external_body]
pub(crate) fn queue_push(queue: &mut ArrayQueue<Block>, block: Block) -> (result: Result<
    (),
    Block,
>)
    ensures
        queue_limit(*final(queue)) == queue_limit(*old(queue)),
        queue_items(*old(queue)).len() < queue_limit(*old(queue)) ==> {
            &&& result is Ok
            &&& queue_items(*final(queue)) == queue_items(*old(queue)).push(block)
        },
        queue_items(*old(queue)).len() >= queue_limit(*old(queue)) ==> {
            &&& result is Err
            &&& result->Err_0 == block
            &&& queue_items(*final(queue)) == queue_items(*old(queue))
        },
{
    queue.push(block)
}

/// Calls [`ArrayQueue::pop`]. The contract claims, for a caller with exclusive access, that the
/// oldest item is taken out and handed over, and that an empty queue yields nothing. The limit
/// never changes.
#[verifier::external_body]
pub(crate) fn queue_pop(queue: &mut ArrayQueue<Block>) -> (result: Option<Block>)
    ensures
        queue_limit(*final(queue)) == queue_limit(*old(queue)),
        queue_items(*old(queue)).len() == 0 ==> {
            &&& result is None
            &&& queue_items(*final(queue)) == queue_items(*old(queue))
        },
        queue_items(*old(queue)).len() > 0 ==> {
            &&& result is Some
            &&& result->Some_0 == queue_items(*old(queue))[0]
            &&& queue_items(*final(queue)) == queue_items(*old(queue)).skip(1)
        },
{
    queue.pop()
}

} // verus!
