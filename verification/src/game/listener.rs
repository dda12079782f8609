//! The flag that keeps a game listener open.
use vstd::prelude::*;

verus! {

/// How many seconds a listener waits for players before it looks whether it is to stay.
pub const ACCEPT_TIMEOUT_SECS: u64 = 30;

/// The listener is gone.
#[derive(Clone, Copy, Debug, PartialEq, Eq)]
pub struct GameListenerClosedError;

/// What a game listener and the relay share: whether the listener was asked to stay since it
/// last looked, and whether it is gone.
#[derive(Clone, Copy, Debug, PartialEq, Eq, Structural)]
pub struct GameListenerHandle {
    pub keepalive: bool,
    pub closed: bool,
}

impl GameListenerHandle {
    /// A listener that just opened.
    pub open spec fn opened() -> Self {
        GameListenerHandle { keepalive: false, closed: false }
    }

    /// A listener that was asked to stay.
    pub open spec fn kept_alive(self) -> Self {
        GameListenerHandle { keepalive: true, closed: self.closed }
    }

    /// A listener after a player connected: it has to be asked to stay again.
    pub open spec fn after_accept(self) -> Self {
        GameListenerHandle { keepalive: false, closed: self.closed }
    }

    /// A listener after nobody connected for a while: it is gone, unless it was asked to stay.
    pub open spec fn after_timeout(self) -> Self {
        GameListenerHandle { keepalive: false, closed: self.closed || !self.keepalive }
    }

    /// A listener that is gone.
    pub open spec fn gone(self) -> Self {
        GameListenerHandle { keepalive: self.keepalive, closed: true }
    }

    /// A listener that just opened.
    pub fn new() -> (handle: Self)
        ensures
            handle == Self::opened(),
    {
        GameListenerHandle { keepalive: false, closed: false }
    }

    /// Asks the listener to stay open. One that is gone cannot.
    pub fn keepalive(&mut self) -> (result: Result<(), GameListenerClosedError>)
        ensures
            result is Err <==> old(self).closed,
            *final(self) == if old(self).closed {
                *old(self)
            } else {
                old(self).kept_alive()
            },
    {
        if self.closed {
            return Err(GameListenerClosedError);
        }
        self.keepalive = true;
        Ok(())
    }

    /// A player connected.
    pub fn accepted(&mut self)
        ensures
            *final(self) == old(self).after_accept(),
    {
        self.keepalive = false;
    }

    /// Nobody connected for [`ACCEPT_TIMEOUT_SECS`]. Returns whether the listener goes on.
    pub fn timed_out(&mut self) -> (goes_on: bool)
        ensures
            *final(self) == old(self).after_timeout(),
            goes_on == !final(self).closed,
    {
        if !self.keepalive {
            self.closed = true;
        }
        self.keepalive = false;
        !self.closed
    }

    /// Notes that the listener is gone.
    pub fn close(&mut self)
        ensures
            *final(self) == old(self).gone(),
    {
        self.closed = true;
    }
}

/// A listener that is asked to stay survives the next timeout, and one that is not asked again
/// does not survive the one after.
pub proof fn idle_listener_ends(listener: GameListenerHandle)
    ensures
        !listener.closed ==> !listener.kept_alive().after_timeout().closed,
        listener.after_timeout().after_timeout().closed,
{
}

/// A listener that is gone stays gone, whatever happens.
pub proof fn closed_listener_stays_closed(listener: GameListenerHandle)
    requires
        listener.closed,
    ensures
        listener.kept_alive().closed,
        listener.after_accept().closed,
        listener.after_timeout().closed,
        listener.gone().closed,
{
}

/// How long a listener waits for players.
pub proof fn waiting_for_players()
    ensures
        ACCEPT_TIMEOUT_SECS == 30,
{
}

/// What happens to a listener: it opens without having been asked to stay; to be asked sets the
/// wish, a player takes it back, and a timeout uses it up, or ends the listener if there is none.
pub proof fn listening(listener: GameListenerHandle)
    ensures
        !GameListenerHandle::opened().keepalive && !GameListenerHandle::opened().closed,
        listener.kept_alive().keepalive && listener.kept_alive().closed == listener.closed,
        !listener.after_accept().keepalive && listener.after_accept().closed == listener.closed,
        !listener.after_timeout().keepalive,
        listener.after_timeout().closed <==> listener.closed || !listener.keepalive,
        listener.gone().closed && listener.gone().keepalive == listener.keepalive,
{
}

} // verus!
