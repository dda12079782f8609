//! What the sending end of a connection holds.
use vstd::prelude::*;

verus! {

/// Items that wait to be sent, and whether the connection is gone.
#[verifier::ext_equal]
pub struct QueueView<T> {
    pub queue: Seq<T>,
    pub closed: bool,
}

impl<T> QueueView<T> {
    /// A connection on which nothing was sent.
    pub open spec fn fresh() -> Self {
        QueueView { queue: Seq::empty(), closed: false }
    }

    /// One more item at the end, unless the connection is gone.
    pub open spec fn send(self, item: T) -> Self {
        if self.closed {
            self
        } else {
            QueueView { queue: self.queue.push(item), closed: false }
        }
    }

    /// The same connection with nothing left to send.
    pub open spec fn drained(self) -> Self {
        QueueView { queue: Seq::empty(), closed: self.closed }
    }

    /// The same items on a connection that is gone.
    pub open spec fn shut(self) -> Self {
        QueueView { queue: self.queue, closed: true }
    }
}

/// A connection at first holds nothing and is up.
pub proof fn starting_a_queue<T>()
    ensures
        QueueView::<T>::fresh().queue.len() == 0,
        !QueueView::<T>::fresh().closed,
{
}

/// What is sent stands behind all that waits already, unless the connection is gone; what is
/// collected is all of it; and a connection that is gone still holds what waits.
pub proof fn using_a_queue<T>(before: QueueView<T>, item: T)
    ensures
        before.closed ==> before.send(item) == before,
        !before.closed ==> {
            let after = before.send(item);
            &&& !after.closed
            &&& after.queue.len() == before.queue.len() + 1
            &&& after.queue.last() == item
            &&& forall|i: int|
                0 <= i < before.queue.len() ==> #[trigger] after.queue[i] == before.queue[i]
        },
        before.drained().queue.len() == 0,
        before.drained().closed == before.closed,
        before.shut().queue == before.queue,
        before.shut().closed,
{
}

} // verus!
