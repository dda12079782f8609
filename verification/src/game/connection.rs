//! The sending end of a connection to a game.
use crate::queue::QueueView;
use vstd::prelude::*;

verus! {

/// The connection is gone.
#[derive(Clone, Copy, Debug, PartialEq, Eq)]
pub struct GameConnectionClosedError;

/// Bytes that wait to be written to a game.
#[derive(Debug)]
pub struct GameConnectionHandle {
    pub queue: Vec<Vec<u8>>,
    pub closed: bool,
}

impl View for GameConnectionHandle {
    type V = QueueView<Seq<u8>>;

    open spec fn view(&self) -> QueueView<Seq<u8>> {
        QueueView { queue: self.queue@.map_values(|data: Vec<u8>| data@), closed: self.closed }
    }
}

impl GameConnectionHandle {
    /// A connection on which nothing was sent.
    pub fn new() -> (handle: Self)
        ensures
            handle@ == QueueView::<Seq<u8>>::fresh(),
    {
        let handle = GameConnectionHandle { queue: Vec::new(), closed: false };
        assert(handle@.queue =~= Seq::<Seq<u8>>::empty());
        handle
    }

    /// Hands bytes to the connection.
    pub fn send(&mut self, data: Vec<u8>) -> (result: Result<(), GameConnectionClosedError>)
        ensures
            final(self)@ == old(self)@.send(data@),
            result is Err <==> old(self)@.closed,
    {
        if self.closed {
            return Err(GameConnectionClosedError);
        }
        self.queue.push(data);
        assert(self@.queue =~= old(self)@.queue.push(data@));
        Ok(())
    }

    /// Takes the bytes that wait to be written.
    pub fn drain(&mut self) -> (queue: Vec<Vec<u8>>)
        ensures
            final(self)@ == old(self)@.drained(),
            queue@.map_values(|data: Vec<u8>| data@) == old(self)@.queue,
    {
        let mut queue: Vec<Vec<u8>> = Vec::new();
        core::mem::swap(&mut queue, &mut self.queue);
        assert(self@.queue =~= Seq::<Seq<u8>>::empty());
        queue
    }

    /// Notes that the connection is gone.
    pub fn close(&mut self)
        ensures
            final(self)@ == old(self)@.shut(),
    {
        self.closed = true;
        assert(self@.queue =~= old(self)@.queue);
    }
}

/// A connection stands for the bytes that wait, piece by piece, and for whether it is gone.
pub proof fn reading_a_game_queue(handle: GameConnectionHandle)
    ensures
        handle@.closed == handle.closed,
        handle@.queue.len() == handle.queue@.len(),
        forall|i: int|
            0 <= i < handle.queue@.len() ==> #[trigger] handle@.queue[i] == handle.queue@[i]@,
{
}

} // verus!
