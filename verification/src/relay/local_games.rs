//! The games that were found on the local network, by address.
use crate::addr::SocketAddr;
use crate::relay::ids::LocalGameId;
use vstd::prelude::*;

verus! {

/// Game numbers by the address of the game.
#[derive(Debug)]
pub struct LocalGames {
    pub entries: Vec<(SocketAddr, LocalGameId)>,
}

/// The map that a list of entries stands for; a later entry hides an earlier one.
pub open spec fn entries_map(
    entries: Seq<(SocketAddr, LocalGameId)>,
) -> Map<SocketAddr, LocalGameId>
    decreases entries.len(),
{
    if entries.len() == 0 {
        Map::empty()
    } else {
        entries_map(entries.drop_last()).insert(entries.last().0, entries.last().1)
    }
}

impl View for LocalGames {
    type V = Map<SocketAddr, LocalGameId>;

    open spec fn view(&self) -> Map<SocketAddr, LocalGameId> {
        entries_map(self.entries@)
    }
}

impl LocalGames {
    /// No games.
    pub fn new() -> (games: Self)
        ensures
            games@ == Map::<SocketAddr, LocalGameId>::empty(),
    {
        LocalGames { entries: Vec::new() }
    }

    /// Looks up the game at an address.
    pub fn get(&self, addr: SocketAddr) -> (id: Option<LocalGameId>)
        ensures
            id == self@.get(addr),
    {
        let mut i: usize = self.entries.len();
        assert(self.entries@.take(i as int) =~= self.entries@);
        while i > 0
            invariant
                i <= self.entries@.len(),
                self@.get(addr) == entries_map(self.entries@.take(i as int)).get(addr),
            decreases i,
        {
            i = i - 1;
            let entry = self.entries[i];
            assert(self.entries@.take(i + 1).drop_last() =~= self.entries@.take(i as int));
            if entry.0 == addr {
                return Some(entry.1);
            }
        }
        None
    }

    /// Puts a game at an address.
    pub fn insert(&mut self, addr: SocketAddr, id: LocalGameId)
        ensures
            final(self)@ == old(self)@.insert(addr, id),
    {
        self.entries.push((addr, id));
        assert(self.entries@.drop_last() =~= old(self).entries@);
    }
}

} // verus!
