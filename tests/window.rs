use fifo_window::pacing::Pacing;
use fifo_window::window::{Action, Event, Lane, SimpleWindow};

fn saturated(pacing: Pacing) -> SimpleWindow {
    let mut w = SimpleWindow::new(4, pacing);
    w.configure();
    for _ in 0..3 {
        w.task_fired(Lane::Immediate);
    }
    w
}

#[test]
fn first_configure_draws_buffer_zero() {
    let mut w = SimpleWindow::new(4, Pacing::Absent);
    assert!(w.first_configure());
    let a = w.configure();
    assert_eq!(
        a,
        vec![
            Action::DamageAll,
            Action::Attach(0),
            Action::Commit,
            Action::Schedule(Lane::Immediate)
        ]
    );
    assert_eq!(a.iter().filter(|x| **x == Action::Commit).count(), 1);
    assert!(!w.first_configure());
    assert!(w.is_in_use(0));
    assert_eq!(w.in_use_count(), 1);
    assert_eq!(w.pending(), Some(Lane::Immediate));
}

#[test]
fn later_configure_does_not_draw() {
    let mut w = SimpleWindow::new(4, Pacing::Absent);
    w.configure();
    assert_eq!(w.configure(), vec![]);
    assert_eq!(w.in_use_count(), 1);
}

#[test]
fn no_draw_before_configure() {
    let mut w = SimpleWindow::new(4, Pacing::Present);
    assert_eq!(w.buffer_released(0), vec![]);
    assert_eq!(w.in_use_count(), 0);
    assert_eq!(w.pending(), None);
}

#[test]
fn paced_draw_waits_then_sets_barrier() {
    let mut w = SimpleWindow::new(4, Pacing::Present);
    let a = w.handle(Event::Configure);
    assert_eq!(
        a,
        vec![
            Action::DamageAll,
            Action::Attach(0),
            Action::WaitBarrier,
            Action::SetBarrier,
            Action::Commit,
            Action::Schedule(Lane::Immediate)
        ]
    );
}

#[test]
fn saturated_pool_schedules_idle_retry() {
    let mut w = saturated(Pacing::Present);
    assert_eq!(w.in_use_count(), 4);
    let a = w.draw();
    assert_eq!(a, vec![Action::Schedule(Lane::Idle)]);
    assert_eq!(w.pending(), Some(Lane::Idle));
    assert_eq!(w.in_use_count(), 4);
}

#[test]
fn idle_retry_draws_after_release() {
    let mut w = saturated(Pacing::Absent);
    assert_eq!(w.task_fired(Lane::Immediate), vec![Action::Schedule(Lane::Idle)]);
    assert_eq!(w.task_fired(Lane::Idle), vec![Action::Schedule(Lane::Idle)]);
    w.handle(Event::BufferReleased(2));
    let a = w.task_fired(Lane::Idle);
    assert_eq!(
        a,
        vec![
            Action::DamageAll,
            Action::Attach(2),
            Action::Commit,
            Action::Schedule(Lane::Immediate)
        ]
    );
    assert_eq!(w.pending(), Some(Lane::Immediate));
}

#[test]
fn unpaced_window_never_touches_barriers() {
    let mut w = SimpleWindow::new(4, Pacing::Absent);
    let mut all = w.configure();
    for round in 0..40usize {
        if round % 5 == 0 {
            all.extend(w.buffer_released(round % 4));
        }
        all.extend(w.task_fired(Lane::Immediate));
    }
    assert!(all.iter().any(|a| *a == Action::Commit));
    assert!(all
        .iter()
        .all(|a| *a != Action::WaitBarrier && *a != Action::SetBarrier));
}

#[test]
fn disabled_pacing_is_absent_even_if_offered() {
    let p = Pacing::select(false, true);
    assert_eq!(p, Pacing::Absent);
    let mut w = SimpleWindow::new(4, p);
    let mut all = w.configure();
    for _ in 0..10 {
        all.extend(w.task_fired(Lane::Immediate));
        all.extend(w.buffer_released(1));
    }
    assert!(all
        .iter()
        .all(|a| *a != Action::WaitBarrier && *a != Action::SetBarrier));
}

#[test]
fn paced_run_pairs_every_commit() {
    let mut w = SimpleWindow::new(2, Pacing::Present);
    let mut all = w.configure();
    for round in 0..12usize {
        all.extend(w.task_fired(Lane::Immediate));
        if round % 2 == 1 {
            all.extend(w.buffer_released(round % 2));
            all.extend(w.buffer_released(0));
        }
    }
    let mut commits = 0;
    for (k, a) in all.iter().enumerate() {
        if *a == Action::Commit {
            commits += 1;
            assert!(k >= 2);
            assert_eq!(all[k - 2], Action::WaitBarrier);
            assert_eq!(all[k - 1], Action::SetBarrier);
        }
    }
    let waits = all.iter().filter(|a| **a == Action::WaitBarrier).count();
    let sets = all.iter().filter(|a| **a == Action::SetBarrier).count();
    assert!(commits > 1);
    assert_eq!(waits, commits);
    assert_eq!(sets, commits);
}

#[test]
fn close_before_scheduled_draw_stops_drawing() {
    let mut w = SimpleWindow::new(4, Pacing::Present);
    w.configure();
    assert_eq!(w.pending(), Some(Lane::Immediate));
    assert_eq!(w.request_close(), vec![]);
    assert!(w.exit());
    assert_eq!(w.task_fired(Lane::Immediate), vec![]);
    assert_eq!(w.task_fired(Lane::Idle), vec![]);
    assert_eq!(w.handle(Event::Configure), vec![]);
    assert_eq!(w.in_use_count(), 1);
    assert_eq!(w.pending(), None);
}

#[test]
fn close_while_idle_retry_pending_stops_drawing() {
    let mut w = saturated(Pacing::Absent);
    w.draw();
    assert_eq!(w.pending(), Some(Lane::Idle));
    w.handle(Event::CloseRequest);
    w.buffer_released(0);
    assert_eq!(w.handle(Event::TaskFired(Lane::Idle)), vec![]);
}

#[test]
fn close_before_first_configure_draws_nothing() {
    let mut w = SimpleWindow::new(4, Pacing::Absent);
    w.request_close();
    assert_eq!(w.configure(), vec![]);
    assert_eq!(w.in_use_count(), 0);
}

#[test]
fn release_of_untracked_buffer_is_ignored() {
    let mut w = SimpleWindow::new(4, Pacing::Absent);
    w.configure();
    w.task_fired(Lane::Immediate);
    assert_eq!(w.buffer_released(3), vec![]);
    assert_eq!(w.buffer_released(17), vec![]);
    assert!(w.is_in_use(0));
    assert!(w.is_in_use(1));
    assert!(!w.is_in_use(2));
    assert!(!w.is_in_use(3));
    assert_eq!(w.in_use_count(), 2);
    assert_eq!(w.pending(), Some(Lane::Immediate));
}

#[test]
fn pacing_selection() {
    assert_eq!(Pacing::select(true, true), Pacing::Present);
    assert_eq!(Pacing::select(true, false), Pacing::Absent);
    assert_eq!(Pacing::select(false, false), Pacing::Absent);
    assert!(Pacing::unavailable_notice(true, false));
    assert!(!Pacing::unavailable_notice(false, false));
    assert!(!Pacing::unavailable_notice(true, true));
    assert!(Pacing::Present.is_present());
    assert!(!Pacing::Absent.is_present());
}
