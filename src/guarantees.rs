//! What holds of every run of a window, whatever events it is given.
use vstd::prelude::*;
use crate::pacing::Pacing;
use crate::pool::{count_in_use, first_free, lemma_count_in_use_bounded, lemma_first_free, release_spec};
use crate::window::{Action, Event, Lane, WindowModel, barrier_actions, draw_spec, run, step};

verus! {

/// Every commit comes right after a wait on the previous barrier and the
/// setting of a new one, and each wait and set belong to such a commit.
pub open spec fn barriers_paired(a: Seq<Action>) -> bool {
    &&& forall|k: int|
        0 <= k < a.len() && #[trigger] a[k] == Action::Commit ==> 2 <= k && a[k - 2] == Action::WaitBarrier
            && a[k - 1] == Action::SetBarrier
    &&& forall|k: int|
        0 <= k < a.len() && #[trigger] a[k] == Action::WaitBarrier ==> k + 2 < a.len() && a[k + 1]
            == Action::SetBarrier && a[k + 2] == Action::Commit
    &&& forall|k: int|
        0 <= k < a.len() && #[trigger] a[k] == Action::SetBarrier ==> 1 <= k && k + 1 < a.len() && a[k - 1]
            == Action::WaitBarrier && a[k + 1] == Action::Commit
}

/// No barrier is waited on or set.
pub open spec fn no_barriers(a: Seq<Action>) -> bool {
    forall|k: int| 0 <= k < a.len() ==> a[k] != Action::WaitBarrier && a[k] != Action::SetBarrier
}

proof fn lemma_paired_concat(a: Seq<Action>, b: Seq<Action>)
    requires
        barriers_paired(a),
        barriers_paired(b),
    ensures
        barriers_paired(a + b),
{
    let c = a + b;
    assert forall|k: int| 0 <= k < c.len() implies (#[trigger] c[k] == Action::Commit ==> 2 <= k && c[k - 2]
        == Action::WaitBarrier && c[k - 1] == Action::SetBarrier) && (c[k] == Action::WaitBarrier
        ==> k + 2 < c.len() && c[k + 1] == Action::SetBarrier && c[k + 2] == Action::Commit) && (
    c[k] == Action::SetBarrier ==> 1 <= k && k + 1 < c.len() && c[k - 1] == Action::WaitBarrier
        && c[k + 1] == Action::Commit) by {
        if k < a.len() {
            assert(c[k] == a[k]);
            if a[k] == Action::Commit {
                assert(c[k - 2] == a[k - 2] && c[k - 1] == a[k - 1]);
            }
            if a[k] == Action::WaitBarrier {
                assert(c[k + 1] == a[k + 1] && c[k + 2] == a[k + 2]);
            }
            if a[k] == Action::SetBarrier {
                assert(c[k - 1] == a[k - 1] && c[k + 1] == a[k + 1]);
            }
        } else {
            let j = k - a.len();
            assert(c[k] == b[j]);
            if b[j] == Action::Commit {
                assert(c[k - 2] == b[j - 2] && c[k - 1] == b[j - 1]);
            }
            if b[j] == Action::WaitBarrier {
                assert(c[k + 1] == b[j + 1] && c[k + 2] == b[j + 2]);
            }
            if b[j] == Action::SetBarrier {
                assert(c[k - 1] == b[j - 1] && c[k + 1] == b[j + 1]);
            }
        }
    }
}

proof fn lemma_step_keeps_pacing(m: WindowModel, e: Event)
    ensures
        step(m, e).0.pacing == m.pacing,
{
}

proof fn lemma_step_paired(m: WindowModel, e: Event)
    requires
        m.pacing == Pacing::Present,
    ensures
        barriers_paired(step(m, e).1),
{
    let a = step(m, e).1;
    match first_free(m.in_use) {
        Some(i) => {
            let d = seq![Action::DamageAll, Action::Attach(i as usize)] + barrier_actions(
                m.pacing,
            ) + seq![Action::Commit, Action::Schedule(Lane::Immediate)];
            assert(d =~= seq![
                Action::DamageAll,
                Action::Attach(i as usize),
                Action::WaitBarrier,
                Action::SetBarrier,
                Action::Commit,
                Action::Schedule(Lane::Immediate),
            ]);
        },
        None => {},
    }
}

proof fn lemma_step_unpaced(m: WindowModel, e: Event)
    requires
        m.pacing == Pacing::Absent,
    ensures
        no_barriers(step(m, e).1),
{
    match first_free(m.in_use) {
        Some(i) => {
            let d = seq![Action::DamageAll, Action::Attach(i as usize)] + barrier_actions(
                m.pacing,
            ) + seq![Action::Commit, Action::Schedule(Lane::Immediate)];
            assert(d =~= seq![
                Action::DamageAll,
                Action::Attach(i as usize),
                Action::Commit,
                Action::Schedule(Lane::Immediate),
            ]);
        },
        None => {},
    }
}

/// A window keeps the pacing it was made with.
pub proof fn pacing_is_fixed(m: WindowModel, es: Seq<Event>)
    ensures
        run(m, es).0.pacing == m.pacing,
    decreases es.len(),
{
    if es.len() > 0 {
        pacing_is_fixed(m, es.drop_last());
        lemma_step_keeps_pacing(run(m, es.drop_last()).0, es.last());
    }
}

/// Over any run of events a window keeps its number of buffers, and never
/// has more of them in use than that.
pub proof fn in_use_within_pool(m: WindowModel, es: Seq<Event>)
    ensures
        run(m, es).0.in_use.len() == m.in_use.len(),
        count_in_use(run(m, es).0.in_use) <= m.in_use.len(),
    decreases es.len(),
{
    if es.len() > 0 {
        in_use_within_pool(m, es.drop_last());
    }
    lemma_count_in_use_bounded(run(m, es).0.in_use);
}

/// With pacing present, over any run of events every commit is preceded by
/// exactly one wait on the previous barrier and then one new barrier, in that
/// order, and no wait or set stands anywhere else.
pub proof fn paced_commits_are_paired(m: WindowModel, es: Seq<Event>)
    requires
        m.pacing == Pacing::Present,
    ensures
        barriers_paired(run(m, es).1),
    decreases es.len(),
{
    if es.len() == 0 {
        assert(run(m, es).1 =~= Seq::<Action>::empty());
    } else {
        let prev = run(m, es.drop_last());
        paced_commits_are_paired(m, es.drop_last());
        pacing_is_fixed(m, es.drop_last());
        lemma_step_paired(prev.0, es.last());
        lemma_paired_concat(prev.1, step(prev.0, es.last()).1);
    }
}

/// With pacing absent, no run of events, however many draw cycles it holds,
/// ever waits on or sets a barrier.
pub proof fn unpaced_runs_have_no_barriers(m: WindowModel, es: Seq<Event>)
    requires
        m.pacing == Pacing::Absent,
    ensures
        no_barriers(run(m, es).1),
    decreases es.len(),
{
    if es.len() > 0 {
        let prev = run(m, es.drop_last());
        unpaced_runs_have_no_barriers(m, es.drop_last());
        pacing_is_fixed(m, es.drop_last());
        lemma_step_unpaced(prev.0, es.last());
        let c = prev.1 + step(prev.0, es.last()).1;
        assert forall|k: int| 0 <= k < c.len() implies c[k] != Action::WaitBarrier && c[k]
            != Action::SetBarrier by {
            if k >= prev.1.len() {
                assert(c[k] == step(prev.0, es.last()).1[k - prev.1.len()]);
            }
        }
    }
}

/// Once a close request has been taken, no event makes the window request
/// anything more: no draw, no commit, no further task.
pub proof fn nothing_after_exit(m: WindowModel, es: Seq<Event>)
    requires
        m.exit,
    ensures
        run(m, es).0.exit,
        run(m, es).1 == Seq::<Action>::empty(),
    decreases es.len(),
{
    if es.len() > 0 {
        nothing_after_exit(m, es.drop_last());
        let prev = run(m, es.drop_last());
        assert(prev.1 + step(prev.0, es.last()).1 =~= Seq::<Action>::empty());
    }
}

/// Once any buffer that is in use is released, the next idle retry of a
/// window that has not been closed draws: a buffer is attached and committed,
/// and the next cycle is scheduled at once. So a retry that waits because
/// every buffer is in use does not wait forever.
pub proof fn retry_draws_after_release(m: WindowModel, i: usize)
    requires
        !m.exit,
        i < m.in_use.len(),
        m.in_use[i as int],
    ensures
        ({
            let (m1, a1) = step(m, Event::BufferReleased(i));
            let (m2, a2) = step(m1, Event::TaskFired(Lane::Idle));
            &&& a1.len() == 0
            &&& exists|j: usize| a2.contains(Action::Attach(j))
            &&& a2.contains(Action::Commit)
            &&& m2.pending == Some(Lane::Immediate)
        }),
{
    let m1 = step(m, Event::BufferReleased(i)).0;
    assert(m1.in_use == release_spec(m.in_use, i as int));
    assert(!m1.in_use[i as int]);
    lemma_first_free(m1.in_use);
    let m1p = WindowModel { pending: None, ..m1 };
    match first_free(m1.in_use) {
        Some(f) => {
            let a2 = draw_spec(m1p).1;
            let tail = seq![Action::Commit, Action::Schedule(Lane::Immediate)];
            let head = seq![Action::DamageAll, Action::Attach(f as usize)];
            assert(a2 == head + barrier_actions(m.pacing) + tail);
            let paced = barrier_actions(m.pacing);
            assert(a2.len() == 4 + paced.len());
            assert(a2[1] == Action::Attach(f as usize));
            assert(a2[2 + paced.len() as int] == Action::Commit);
            assert(a2.contains(Action::Attach(f as usize)));
            assert(a2.contains(Action::Commit));
            assert(step(m1, Event::TaskFired(Lane::Idle)).1 == a2);
        },
        None => {
            assert(m1.in_use[i as int]);
        },
    }
}

} // verus!
