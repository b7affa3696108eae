//! The undo stack: snapshots of whole game states, capped at 50 entries
//! with the oldest discarded first, plus the result shape a move reply
//! carries.
use vstd::prelude::*;

use crate::piece::Position;
use crate::state::{GameState, StateView};

verus! {

/// The bound on how many snapshots the stack keeps.
pub const HISTORY_CAP: usize = 50;

/// A board-shaped reply to a move request: the grid of coordinates and the
/// move set to highlight.
pub struct MoveResult {
    pub board: Vec<Vec<Position>>,
    pub possible_moves: Vec<Position>,
}

/// A stack of game-state snapshots, newest last.
pub struct MoveHistory {
    pub snapshots: Vec<GameState>,
}

/// The views of the stacked snapshots, oldest first.
pub open spec fn snapshots_view(h: Seq<GameState>) -> Seq<StateView> {
    h.map_values(|s: GameState| s@)
}

/// What pushing `s` leaves on a stack holding `h`: `s` appended, and the
/// oldest entry dropped when that would exceed the cap.
pub open spec fn push_snapshot_view(h: Seq<StateView>, s: StateView) -> Seq<StateView> {
    let pushed = h.push(s);
    if pushed.len() > 50 {
        pushed.drop_first()
    } else {
        pushed
    }
}

impl MoveHistory {
    /// An empty stack.
    pub fn new() -> (r: MoveHistory)
        ensures
            snapshots_view(r.snapshots@) == Seq::<StateView>::empty(),
    {
        let r = MoveHistory { snapshots: Vec::new() };
        proof {
            assert(snapshots_view(r.snapshots@) =~= Seq::<StateView>::empty());
        }
        r
    }

    /// How many snapshots are stacked.
    pub fn len(&self) -> (r: usize)
        ensures
            r == snapshots_view(self.snapshots@).len(),
    {
        self.snapshots.len()
    }

    /// Stacks a copy of `s`; when the stack would grow past the cap, the
    /// oldest snapshot is discarded first.
    pub fn push_snapshot(&mut self, s: &GameState)
        ensures
            snapshots_view(final(self).snapshots@) == push_snapshot_view(
                snapshots_view(old(self).snapshots@),
                s@,
            ),
    {
        let ghost pre = snapshots_view(self.snapshots@);
        self.snapshots.push(s.clone());
        proof {
            assert(snapshots_view(self.snapshots@) =~= pre.push(s@));
        }
        if self.snapshots.len() > HISTORY_CAP {
            let ghost mid = snapshots_view(self.snapshots@);
            let _ = self.snapshots.remove(0);
            proof {
                assert(snapshots_view(self.snapshots@) =~= mid.drop_first());
            }
        }
    }

    /// Discards every snapshot.
    pub fn clear(&mut self)
        ensures
            snapshots_view(final(self).snapshots@) == Seq::<StateView>::empty(),
    {
        self.snapshots.clear();
        proof {
            assert(snapshots_view(self.snapshots@) =~= Seq::<StateView>::empty());
        }
    }

    /// Removes and returns the newest snapshot; `None` on an empty stack,
    /// which stays empty.
    pub fn pop_snapshot(&mut self) -> (r: Option<GameState>)
        ensures
            snapshots_view(old(self).snapshots@).len() == 0 ==> r is None && final(self).snapshots@
                == old(self).snapshots@,
            snapshots_view(old(self).snapshots@).len() > 0 ==> {
                &&& r matches Some(st) && st@ == snapshots_view(old(self).snapshots@).last()
                &&& snapshots_view(final(self).snapshots@) == snapshots_view(
                    old(self).snapshots@,
                ).drop_last()
            },
    {
        let ghost pre = snapshots_view(self.snapshots@);
        if self.snapshots.len() == 0 {
            return None;
        }
        let st = self.snapshots.pop().unwrap();
        proof {
            assert(snapshots_view(self.snapshots@) =~= pre.drop_last());
        }
        Some(st)
    }
}

/// Taking a snapshot before a move and undoing through the stack restores
/// exactly the pre-move state, whatever the move did: the snapshot pushed
/// for state `s` is what a pop right after returns, for any prior stack
/// contents within the cap.
pub proof fn lemma_move_then_undo_restores(h: Seq<StateView>, s: StateView)
    requires
        h.len() <= 50,
    ensures
        push_snapshot_view(h, s).len() > 0,
        push_snapshot_view(h, s).last() == s,
        push_snapshot_view(h, s).len() <= 50,
{
    let pushed = h.push(s);
    assert(pushed.last() == s);
    if pushed.len() > 50 {
        assert(pushed.drop_first().last() == s);
    }
}

} // verus!
