//! Teardown of a stream: whichever way a stream ends (its consumer goes away,
//! or one of its filter processes exits), every process still running is
//! killed and the tuner user is released, each exactly once.
use vstd::prelude::*;

verus! {

/// A step that the owner of the stream performs.
#[derive(Clone, Copy, Debug, PartialEq, Eq, Structural)]
pub enum TeardownAction {
    /// Kill and reap the filter process at this position.
    Kill { stage: usize },
    /// Detach the stream's user from its tuner.
    ReleaseTuner { user_id: u64 },
}

/// A kill for each stage that is still running, in pipeline order.
pub open spec fn kill_actions(alive: Seq<bool>) -> Seq<TeardownAction>
    decreases alive.len(),
{
    if alive.len() == 0 {
        Seq::empty()
    } else if alive.last() {
        kill_actions(alive.drop_last()).push(
            TeardownAction::Kill { stage: (alive.len() - 1) as usize },
        )
    } else {
        kill_actions(alive.drop_last())
    }
}

/// What tearing the stream down takes from this state: kill what still runs,
/// then release the tuner unless that was done.
pub open spec fn teardown_actions(alive: Seq<bool>, released: bool, user_id: u64) -> Seq<
    TeardownAction,
> {
    kill_actions(alive) + if released {
        Seq::empty()
    } else {
        seq![TeardownAction::ReleaseTuner { user_id }]
    }
}

pub open spec fn all_stopped(alive: Seq<bool>) -> bool {
    forall|k: int| 0 <= k < alive.len() ==> !(#[trigger] alive[k])
}

/// Which processes of a stream still run, and whether its tuner user is gone.
pub struct StreamTeardown {
    user_id: u64,
    alive: Vec<bool>,
    released: bool,
}

impl StreamTeardown {
    pub closed spec fn spec_user_id(&self) -> u64 {
        self.user_id
    }

    pub closed spec fn spec_alive(&self) -> Seq<bool> {
        self.alive@
    }

    pub closed spec fn spec_released(&self) -> bool {
        self.released
    }

    /// A stream of `stages` running processes that holds tuner user `user_id`.
    pub fn new(user_id: u64, stages: usize) -> (r: Self)
        ensures
            r.spec_user_id() == user_id,
            r.spec_alive().len() == stages,
            forall|k: int| 0 <= k < stages ==> #[trigger] r.spec_alive()[k],
            !r.spec_released(),
    {
        let mut alive: Vec<bool> = Vec::new();
        let mut k: usize = 0;
        while k < stages
            invariant
                0 <= k <= stages,
                alive@.len() == k,
                forall|j: int| 0 <= j < k ==> #[trigger] alive@[j],
            decreases stages - k,
        {
            alive.push(true);
            k = k + 1;
        }
        StreamTeardown { user_id, alive, released: false }
    }

    pub fn is_finished(&self) -> (r: bool)
        ensures
            r == (self.spec_released() && all_stopped(self.spec_alive())),
    {
        if !self.released {
            return false;
        }
        let mut k: usize = 0;
        while k < self.alive.len()
            invariant
                0 <= k <= self.alive@.len(),
                forall|j: int| 0 <= j < k ==> !(#[trigger] self.alive@[j]),
            decreases self.alive@.len() - k,
        {
            if self.alive[k] {
                return false;
            }
            k = k + 1;
        }
        true
    }

    /// The consumer went away: stop everything that still runs.  A second
    /// call has nothing left to do.
    pub fn cancel(&mut self) -> (r: Vec<TeardownAction>)
        ensures
            r@ == teardown_actions(
                old(self).spec_alive(),
                old(self).spec_released(),
                old(self).spec_user_id(),
            ),
            final(self).spec_user_id() == old(self).spec_user_id(),
            final(self).spec_alive().len() == old(self).spec_alive().len(),
            all_stopped(final(self).spec_alive()),
            final(self).spec_released(),
    {
        let ghost alive = self.alive@;
        let mut actions: Vec<TeardownAction> = Vec::new();
        let mut k: usize = 0;
        while k < self.alive.len()
            invariant
                0 <= k <= alive.len(),
                self.alive@.len() == alive.len(),
                self.user_id == old(self).user_id,
                self.released == old(self).released,
                alive == old(self).alive@,
                actions@ == kill_actions(alive.subrange(0, k as int)),
                forall|j: int| 0 <= j < k ==> !(#[trigger] self.alive@[j]),
                forall|j: int| k <= j < alive.len() ==> self.alive@[j] == alive[j],
            decreases alive.len() - k,
        {
            proof {
                assert(alive.subrange(0, k as int + 1).drop_last() =~= alive.subrange(0, k as int));
            }
            if self.alive[k] {
                actions.push(TeardownAction::Kill { stage: k });
                self.alive.set(k, false);
            }
            k = k + 1;
        }
        assert(alive.subrange(0, k as int) =~= alive);
        let ghost kills = actions@;
        if !self.released {
            actions.push(TeardownAction::ReleaseTuner { user_id: self.user_id });
            self.released = true;
            assert(actions@ =~= kills + seq![TeardownAction::ReleaseTuner { user_id: self.user_id }]);
        } else {
            assert(actions@ =~= kills + Seq::<TeardownAction>::empty());
        }
        actions
    }

    /// The process at `stage` exited on its own.  A pipeline with a stage gone
    /// can no longer deliver, so the rest is stopped as on a cancel.
    pub fn stage_exited(&mut self, stage: usize) -> (r: Vec<TeardownAction>)
        requires
            stage < old(self).spec_alive().len(),
        ensures
            r@ == teardown_actions(
                old(self).spec_alive().update(stage as int, false),
                old(self).spec_released(),
                old(self).spec_user_id(),
            ),
            final(self).spec_user_id() == old(self).spec_user_id(),
            final(self).spec_alive().len() == old(self).spec_alive().len(),
            all_stopped(final(self).spec_alive()),
            final(self).spec_released(),
    {
        self.alive.set(stage, false);
        self.cancel()
    }
}

/// Every stage that still runs gets a kill, and nothing else does.
pub proof fn lemma_kill_actions(alive: Seq<bool>)
    requires
        alive.len() <= usize::MAX,
    ensures
        forall|k: int|
            0 <= k < alive.len() ==> (#[trigger] alive[k] <==> kill_actions(alive).contains(
                TeardownAction::Kill { stage: k as usize },
            )),
        forall|i: int|
            0 <= i < kill_actions(alive).len() ==> (#[trigger] kill_actions(alive)[i]) is Kill,
{
    lemma_kills_exact(alive);
    let ka = kill_actions(alive);
    assert forall|k: int|
        0 <= k < alive.len() implies (#[trigger] alive[k] <==> ka.contains(
        TeardownAction::Kill { stage: k as usize },
    )) by {
        if ka.contains(TeardownAction::Kill { stage: k as usize }) {
            let i = choose|i: int|
                0 <= i < ka.len() && ka[i] == TeardownAction::Kill { stage: k as usize };
            assert(alive[ka[i]->stage as int]);
        }
    }
}

proof fn lemma_kills_exact(alive: Seq<bool>)
    requires
        alive.len() <= usize::MAX,
    ensures
        forall|i: int|
            0 <= i < kill_actions(alive).len() ==> {
                let a = #[trigger] kill_actions(alive)[i];
                a is Kill && (a->stage as int) < alive.len() && alive[a->stage as int]
            },
        forall|k: int|
            0 <= k < alive.len() && #[trigger] alive[k] ==> kill_actions(alive).contains(
                TeardownAction::Kill { stage: k as usize },
            ),
    decreases alive.len(),
{
    if alive.len() > 0 {
        let rest = alive.drop_last();
        let n = alive.len() - 1;
        lemma_kills_exact(rest);
        let kr = kill_actions(rest);
        let ka = kill_actions(alive);
        assert forall|i: int| 0 <= i < ka.len() implies {
            let a = #[trigger] ka[i];
            a is Kill && (a->stage as int) < alive.len() && alive[a->stage as int]
        } by {
            if i < kr.len() {
                assert(ka[i] == kr[i]);
                assert(rest[kr[i]->stage as int] == alive[kr[i]->stage as int]);
            }
        }
        assert forall|k: int| 0 <= k < alive.len() && #[trigger] alive[k] implies ka.contains(
            TeardownAction::Kill { stage: k as usize },
        ) by {
            if k < n {
                assert(rest[k] == alive[k]);
                let i = choose|i: int|
                    0 <= i < kr.len() && kr[i] == TeardownAction::Kill { stage: k as usize };
                assert(ka[i] == kr[i]);
            } else {
                assert(ka[ka.len() - 1] == TeardownAction::Kill { stage: k as usize });
            }
        }
    }
}

/// A teardown releases the tuner user exactly when nobody did before, and once
/// `cancel` or `stage_exited` has run (everything stopped, user released) a
/// further teardown has nothing to do: the user is released once and each
/// process is killed once.
pub proof fn lemma_teardown_once(alive: Seq<bool>, released: bool, user_id: u64)
    requires
        alive.len() <= usize::MAX,
    ensures
        all_stopped(alive) && released ==> teardown_actions(alive, released, user_id).len() == 0,
        teardown_actions(alive, released, user_id).contains(
            TeardownAction::ReleaseTuner { user_id },
        ) <==> !released,
{
    if all_stopped(alive) {
        lemma_no_kills(alive);
    }
    lemma_kill_actions(alive);
    let t = teardown_actions(alive, released, user_id);
    let ka = kill_actions(alive);
    if !released {
        assert(t[t.len() - 1] == TeardownAction::ReleaseTuner { user_id });
    } else {
        assert(t =~= ka);
        if t.contains(TeardownAction::ReleaseTuner { user_id }) {
            let i = choose|i: int| 0 <= i < t.len() && t[i] == TeardownAction::ReleaseTuner { user_id };
            assert(ka[i] is Kill);
        }
    }
}

proof fn lemma_no_kills(alive: Seq<bool>)
    requires
        all_stopped(alive),
    ensures
        kill_actions(alive).len() == 0,
    decreases alive.len(),
{
    if alive.len() > 0 {
        lemma_no_kills(alive.drop_last());
    }
}

} // verus!
