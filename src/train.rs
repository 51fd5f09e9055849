//! Credit assignment for turn-based training.
//!
//! In a game where players alternate, the reward that follows a player's move
//! is only known once every opponent has moved too. So each player's last
//! (state, action) waits in a slot until that player's next decision point,
//! where it is learned from with the current state as its successor; when the
//! episode ends, every waiting transition is learned from with no successor.
//! The loop that runs the environment and the agents drives this record.

use vstd::pervasive::VecAdditionalExecFns;
use vstd::prelude::*;

verus! {

/// The waiting transitions, one slot per player, listed in player order.
pub open spec fn waiting<T>(slots: Seq<Option<T>>, n: nat) -> Seq<(usize, T)>
    decreases n,
{
    if n == 0 {
        Seq::empty()
    } else {
        let before = waiting(slots, (n - 1) as nat);
        match slots[n - 1] {
            Some(t) => before.push(((n - 1) as usize, t)),
            None => before,
        }
    }
}

/// For each player, the transition it made last and has not learned from yet.
#[derive(Debug)]
pub struct PendingTransitions<T> {
    slots: Vec<Option<T>>,
}

impl<T> PendingTransitions<T> {
    pub closed spec fn slots(self) -> Seq<Option<T>> {
        self.slots@
    }

    /// No transition is waiting, for `players` players.
    pub fn new(players: usize) -> (r: PendingTransitions<T>)
        ensures
            r.slots() == Seq::new(players as nat, |i: int| None::<T>),
    {
        let mut slots: Vec<Option<T>> = Vec::new();
        let mut i: usize = 0;
        while i < players
            invariant
                i <= players,
                slots@ == Seq::new(i as nat, |j: int| None::<T>),
            decreases players - i,
        {
            slots.push(None);
            i = i + 1;
            assert(slots@ =~= Seq::new(i as nat, |j: int| None::<T>));
        }
        PendingTransitions { slots }
    }

    pub fn player_count(&self) -> (r: usize)
        ensures
            r == self.slots().len(),
    {
        self.slots.len()
    }

    /// At `player`'s decision point: hands back the transition it made on its
    /// previous turn, if any, and empties its slot.
    pub fn take(&mut self, player: usize) -> (r: Option<T>)
        requires
            player < old(self).slots().len(),
        ensures
            r == old(self).slots()[player as int],
            final(self).slots() == old(self).slots().update(player as int, None),
    {
        let mut out: Option<T> = None;
        self.slots.set_and_swap(player, &mut out);
        out
    }

    /// Records the transition that `player` has just made.
    pub fn record(&mut self, player: usize, transition: T)
        requires
            player < old(self).slots().len(),
        ensures
            final(self).slots() == old(self).slots().update(player as int, Some(transition)),
    {
        self.slots.set(player, Some(transition));
    }

    /// At the end of the episode: every waiting transition with its player, in
    /// player order; all slots are emptied.
    pub fn finish(&mut self) -> (r: Vec<(usize, T)>)
        ensures
            r@ == waiting(old(self).slots(), old(self).slots().len()),
            final(self).slots() == Seq::new(old(self).slots().len(), |i: int| None::<T>),
    {
        let ghost start = self.slots@;
        let n = self.slots.len();
        let mut out: Vec<(usize, T)> = Vec::new();
        let mut i: usize = 0;
        while i < n
            invariant
                i <= n,
                n == start.len(),
                self.slots@.len() == n,
                forall|j: int| 0 <= j < i ==> self.slots@[j] is None,
                forall|j: int| i <= j < n ==> self.slots@[j] == start[j],
                out@ == waiting(start, i as nat),
            decreases n - i,
        {
            let mut slot: Option<T> = None;
            self.slots.set_and_swap(i, &mut slot);
            match slot {
                Some(t) => {
                    out.push((i, t));
                },
                None => {},
            }
            i = i + 1;
        }
        assert(self.slots@ =~= Seq::new(n as nat, |i: int| None::<T>));
        out
    }
}

} // verus!
