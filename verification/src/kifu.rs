//! A game record: the starting position and the turns played from it.
//! Any position of the game is rebuilt by replaying the turns.
use vstd::prelude::*;

use crate::board::Position;
use crate::resolve::{can_resolve, resolvable, resolve, spec_resolve};
use crate::types::Ply;

verus! {

/// The position after the first `n` turns of `plies` from `init`.
pub open spec fn replay_spec(init: Position, plies: Seq<Ply>, n: nat) -> Position
    decreases n,
{
    if n == 0 {
        init
    } else {
        let prev = replay_spec(init, plies, (n - 1) as nat);
        spec_resolve(prev, plies[n - 1].sente, plies[n - 1].gote).next
    }
}

/// Turn `k` can be resolved on the position reached before it.
pub open spec fn step_ok(init: Position, plies: Seq<Ply>, k: int) -> bool {
    resolvable(replay_spec(init, plies, k as nat), plies[k].sente, plies[k].gote)
}

/// The first `n` turns can be replayed one after the other.
pub open spec fn replayable(init: Position, plies: Seq<Ply>, n: int) -> bool {
    forall|k: int| 0 <= k < n ==> #[trigger] step_ok(init, plies, k)
}

/// A game record.
#[derive(Debug, Clone)]
pub struct Kifu {
    pub initial_position: Position,
    pub plies: Vec<Ply>,
}

impl Kifu {
    /// Every turn of the record can be replayed.
    pub open spec fn wf(&self) -> bool {
        replayable(self.initial_position, self.plies@, self.plies@.len() as int)
    }

    /// The position after the first `n` turns (all of them when `n` is larger).
    pub open spec fn position_at(&self, n: int) -> Position {
        let m = if n < self.plies@.len() { n } else { self.plies@.len() as int };
        replay_spec(self.initial_position, self.plies@, m as nat)
    }

    /// A record with no turn yet.
    pub fn new(initial_position: Position) -> (k: Self)
        ensures
            k.initial_position == initial_position,
            k.plies@ == Seq::<Ply>::empty(),
    {
        Kifu { initial_position, plies: Vec::new() }
    }

    /// Appends a turn.
    pub fn push(&mut self, ply: Ply)
        ensures
            final(self).initial_position == old(self).initial_position,
            final(self).plies@ == old(self).plies@.push(ply),
    {
        self.plies.push(ply);
    }

    /// The position after the first `up_to` turns, replayed from the start:
    /// the starting position for 0, the last position for `plies.len()` or more.
    pub fn replay(&self, up_to: usize) -> (p: Position)
        requires
            replayable(
                self.initial_position,
                self.plies@,
                if up_to < self.plies@.len() { up_to as int } else { self.plies@.len() as int },
            ),
        ensures
            p == self.position_at(up_to as int),
    {
        let n = if up_to < self.plies.len() { up_to } else { self.plies.len() };
        let mut pos = self.initial_position;
        let mut i: usize = 0;
        while i < n
            invariant
                i <= n <= self.plies@.len(),
                replayable(self.initial_position, self.plies@, n as int),
                pos == replay_spec(self.initial_position, self.plies@, i as nat),
            decreases n - i,
        {
            let ply = self.plies[i];
            assert(step_ok(self.initial_position, self.plies@, i as int));
            let res = resolve(&pos, ply.sente, ply.gote);
            pos = res.next;
            i += 1;
        }
        pos
    }

    /// The latest position.
    pub fn current(&self) -> (p: Position)
        requires
            self.wf(),
        ensures
            p == self.position_at(self.plies@.len() as int),
    {
        self.replay(self.plies.len())
    }

    /// Takes back the last turn, if there is one.
    pub fn undo(&mut self)
        ensures
            final(self).initial_position == old(self).initial_position,
            final(self).plies@ == (if old(self).plies@.len() > 0 {
                old(self).plies@.drop_last()
            } else {
                old(self).plies@
            }),
    {
        self.plies.pop();
    }

    /// Whether every turn of the record can be replayed (see `wf`).
    pub fn is_replayable(&self) -> (b: bool)
        ensures
            b == self.wf(),
    {
        let mut pos = self.initial_position;
        let mut i: usize = 0;
        while i < self.plies.len()
            invariant
                i <= self.plies@.len(),
                replayable(self.initial_position, self.plies@, i as int),
                pos == replay_spec(self.initial_position, self.plies@, i as nat),
            decreases self.plies@.len() - i,
        {
            let ply = self.plies[i];
            if !can_resolve(&pos, ply.sente, ply.gote) {
                assert(!step_ok(self.initial_position, self.plies@, i as int));
                return false;
            }
            let res = resolve(&pos, ply.sente, ply.gote);
            pos = res.next;
            proof {
                assert forall|k: int| 0 <= k < i + 1 implies #[trigger] step_ok(
                    self.initial_position,
                    self.plies@,
                    k,
                ) by {
                    if k < i {
                        assert(step_ok(self.initial_position, self.plies@, k));
                    }
                }
            }
            i += 1;
        }
        true
    }
}

/// Replaying a record: no turn gives the starting position; each further turn
/// resolves the turn on the position before it; past the last turn the
/// position stays the latest one.
pub proof fn lemma_replay_steps(k: Kifu)
    ensures
        k.position_at(0) == k.initial_position,
        forall|n: int|
            0 <= n < k.plies@.len() ==> #[trigger] k.position_at(n + 1) == spec_resolve(
                k.position_at(n),
                k.plies@[n].sente,
                k.plies@[n].gote,
            ).next,
        forall|n: int|
            n >= k.plies@.len() ==> #[trigger] k.position_at(n) == k.position_at(
                k.plies@.len() as int,
            ),
{
    assert forall|n: int| 0 <= n < k.plies@.len() implies #[trigger] k.position_at(n + 1)
        == spec_resolve(k.position_at(n), k.plies@[n].sente, k.plies@[n].gote).next by {
        assert(((n + 1) as nat - 1) as nat == n as nat);
    }
}


/// Replaying a record that has one more turn gives the same positions up to
/// its old length.
pub proof fn lemma_replay_prefix(init: Position, plies: Seq<Ply>, ply: Ply, n: nat)
    requires
        n <= plies.len(),
    ensures
        replay_spec(init, plies.push(ply), n) == replay_spec(init, plies, n),
    decreases n,
{
    if n > 0 {
        lemma_replay_prefix(init, plies, ply, (n - 1) as nat);
    }
}

/// After `push`, the latest position is the resolution of the pushed turn on
/// the previous latest position, and every earlier position is unchanged.
pub proof fn lemma_push_replay(k: Kifu, ply: Ply, n: int)
    requires
        0 <= n <= k.plies@.len(),
    ensures
        replay_spec(k.initial_position, k.plies@.push(ply), n as nat) == k.position_at(n),
        replay_spec(k.initial_position, k.plies@.push(ply), (k.plies@.len() + 1) as nat)
            == spec_resolve(k.position_at(k.plies@.len() as int), ply.sente, ply.gote).next,
{
    lemma_replay_prefix(k.initial_position, k.plies@, ply, n as nat);
    lemma_replay_prefix(k.initial_position, k.plies@, ply, k.plies@.len());
}

/// A record stays replayable after a turn that resolves on its latest position is pushed.
pub proof fn lemma_push_keeps_wf(k: Kifu, ply: Ply)
    requires
        k.wf(),
        resolvable(k.position_at(k.plies@.len() as int), ply.sente, ply.gote),
    ensures
        replayable(k.initial_position, k.plies@.push(ply), k.plies@.len() + 1int),
{
    let s = k.plies@.push(ply);
    assert forall|j: int| 0 <= j < k.plies@.len() + 1 implies #[trigger] step_ok(
        k.initial_position,
        s,
        j,
    ) by {
        lemma_replay_prefix(k.initial_position, k.plies@, ply, j as nat);
        if j < k.plies@.len() {
            assert(step_ok(k.initial_position, k.plies@, j));
            assert(s[j] == k.plies@[j]);
        }
    }
}

/// `undo` after `push` gives back the record as it was.
pub proof fn lemma_push_undo(plies: Seq<Ply>, ply: Ply)
    ensures
        plies.push(ply).len() > 0,
        plies.push(ply).drop_last() == plies,
{
    assert(plies.push(ply).drop_last() =~= plies);
}

} // verus!
