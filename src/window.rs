use vstd::prelude::*;
use crate::pacing::Pacing;
use crate::pool::{BufferPool, first_free, submit_spec, release_spec};

verus! {

/// The two lanes of the task queue of the dispatch loop.
#[derive(Clone, Copy, Debug, PartialEq, Eq, Structural)]
pub enum Lane {
    /// Runs on the next round of the loop.
    Immediate,
    /// Runs only when the loop has nothing else to do.
    Idle,
}

/// What the window is told by the display server or by its own task queue.
#[derive(Clone, Copy, Debug, PartialEq, Eq, Structural)]
pub enum Event {
    /// The surface was configured and may be drawn.
    Configure,
    /// The user asked to close the window.
    CloseRequest,
    /// The display server is done with the buffer of this index.
    BufferReleased(usize),
    /// A draw task that was scheduled on this lane runs now.
    TaskFired(Lane),
}

/// A request that the window makes of the display server or of its task queue,
/// to be carried out in order.
#[derive(Clone, Copy, Debug, PartialEq, Eq, Structural)]
pub enum Action {
    /// Mark the whole surface as damaged.
    DamageAll,
    /// Attach the buffer of this index as the next frame's content.
    Attach(usize),
    /// Wait on the previous frame's barrier.
    WaitBarrier,
    /// Set a new barrier for this frame.
    SetBarrier,
    /// Present the attached buffer, damage and barrier state as one update.
    Commit,
    /// Schedule one draw attempt on this lane.
    Schedule(Lane),
}

/// The abstract state of a window.
pub struct WindowModel {
    pub first_configure: bool,
    pub exit: bool,
    pub in_use: Seq<bool>,
    pub pacing: Pacing,
    pub pending: Option<Lane>,
}

/// The barrier requests of one commit.
pub open spec fn barrier_actions(p: Pacing) -> Seq<Action> {
    match p {
        Pacing::Present => seq![Action::WaitBarrier, Action::SetBarrier],
        Pacing::Absent => Seq::empty(),
    }
}

/// One draw cycle. After a close request nothing is done. Where no buffer is
/// free, a retry is scheduled at idle priority and nothing is drawn. Else the
/// first free buffer is attached and committed, paced where pacing is present,
/// and the next cycle is scheduled at once.
pub open spec fn draw_spec(m: WindowModel) -> (WindowModel, Seq<Action>) {
    if m.exit {
        (m, Seq::empty())
    } else {
        match first_free(m.in_use) {
            None => (
                WindowModel { pending: Some(Lane::Idle), ..m },
                seq![Action::Schedule(Lane::Idle)],
            ),
            Some(i) => (
                WindowModel { in_use: submit_spec(m.in_use, i), pending: Some(Lane::Immediate), ..m },
                seq![Action::DamageAll, Action::Attach(i as usize)] + barrier_actions(m.pacing)
                    + seq![Action::Commit, Action::Schedule(Lane::Immediate)],
            ),
        }
    }
}

/// How the window answers one event.
pub open spec fn step(m: WindowModel, e: Event) -> (WindowModel, Seq<Action>) {
    match e {
        Event::Configure => if m.first_configure {
            draw_spec(WindowModel { first_configure: false, ..m })
        } else {
            (m, Seq::empty())
        },
        Event::CloseRequest => (WindowModel { exit: true, ..m }, Seq::empty()),
        Event::BufferReleased(i) => (
            WindowModel { in_use: release_spec(m.in_use, i as int), ..m },
            Seq::empty(),
        ),
        Event::TaskFired(_) => draw_spec(WindowModel { pending: None, ..m }),
    }
}

/// The state after a run of events, and every action requested on the way.
pub open spec fn run(m: WindowModel, es: Seq<Event>) -> (WindowModel, Seq<Action>)
    decreases es.len(),
{
    if es.len() == 0 {
        (m, Seq::empty())
    } else {
        let (m1, a1) = run(m, es.drop_last());
        let (m2, a2) = step(m1, es.last());
        (m2, a1 + a2)
    }
}

/// A window that draws into a fixed pool of buffers. It performs nothing
/// itself: each event returns the requests that the caller carries out.
pub struct SimpleWindow {
    exit: bool,
    first_configure: bool,
    pool: BufferPool,
    pacing: Pacing,
    pending: Option<Lane>,
}

impl View for SimpleWindow {
    type V = WindowModel;

    closed spec fn view(&self) -> WindowModel {
        WindowModel {
            first_configure: self.first_configure,
            exit: self.exit,
            in_use: self.pool@,
            pacing: self.pacing,
            pending: self.pending,
        }
    }
}

impl SimpleWindow {
    /// A window with `buffer_count` free buffers, waiting for its first
    /// configure.
    pub fn new(buffer_count: usize, pacing: Pacing) -> (r: SimpleWindow)
        ensures
            r@.first_configure,
            !r@.exit,
            r@.in_use == Seq::new(buffer_count as nat, |i: int| false),
            r@.pacing == pacing,
            r@.pending is None,
    {
        SimpleWindow {
            exit: false,
            first_configure: true,
            pool: BufferPool::new(buffer_count),
            pacing,
            pending: None,
        }
    }

    pub fn exit(&self) -> (r: bool)
        ensures
            r == self@.exit,
    {
        self.exit
    }

    pub fn first_configure(&self) -> (r: bool)
        ensures
            r == self@.first_configure,
    {
        self.first_configure
    }

    pub fn pacing(&self) -> (r: Pacing)
        ensures
            r == self@.pacing,
    {
        self.pacing
    }

    pub fn pending(&self) -> (r: Option<Lane>)
        ensures
            r == self@.pending,
    {
        self.pending
    }

    pub fn buffer_count(&self) -> (r: usize)
        ensures
            r == self@.in_use.len(),
    {
        self.pool.len()
    }

    pub fn is_in_use(&self, i: usize) -> (r: bool)
        ensures
            r == (i < self@.in_use.len() && self@.in_use[i as int]),
    {
        self.pool.is_in_use(i)
    }

    pub fn in_use_count(&self) -> (r: usize)
        ensures
            r == crate::pool::count_in_use(self@.in_use),
    {
        self.pool.in_use_count()
    }

    /// One draw cycle: see `draw_spec`.
    pub fn draw(&mut self) -> (r: Vec<Action>)
        ensures
            (final(self)@, r@) == draw_spec(old(self)@),
    {
        if self.exit {
            return Vec::new();
        }
        match self.pool.find_free() {
            None => {
                self.pending = Some(Lane::Idle);
                vec![Action::Schedule(Lane::Idle)]
            },
            Some(i) => {
                let attached = self.pool.mark_submitted(i);
                assert(attached is Ok);
                let mut r: Vec<Action> = vec![Action::DamageAll, Action::Attach(i)];
                if self.pacing.is_present() {
                    r.push(Action::WaitBarrier);
                    r.push(Action::SetBarrier);
                }
                r.push(Action::Commit);
                r.push(Action::Schedule(Lane::Immediate));
                self.pending = Some(Lane::Immediate);
                assert(r@ =~= seq![Action::DamageAll, Action::Attach(i)] + barrier_actions(
                    self.pacing,
                ) + seq![Action::Commit, Action::Schedule(Lane::Immediate)]);
                r
            },
        }
    }

    /// The surface was configured: the first configure starts drawing, later
    /// ones change nothing.
    pub fn configure(&mut self) -> (r: Vec<Action>)
        ensures
            (final(self)@, r@) == step(old(self)@, Event::Configure),
    {
        if self.first_configure {
            self.first_configure = false;
            self.draw()
        } else {
            Vec::new()
        }
    }

    /// The user asked to close the window: from now on nothing is drawn.
    pub fn request_close(&mut self) -> (r: Vec<Action>)
        ensures
            (final(self)@, r@) == step(old(self)@, Event::CloseRequest),
    {
        self.exit = true;
        Vec::new()
    }

    /// The display server is done with buffer `i`.
    pub fn buffer_released(&mut self, i: usize) -> (r: Vec<Action>)
        ensures
            (final(self)@, r@) == step(old(self)@, Event::BufferReleased(i)),
    {
        self.pool.on_release(i);
        Vec::new()
    }

    /// A scheduled draw task runs.
    pub fn task_fired(&mut self, lane: Lane) -> (r: Vec<Action>)
        ensures
            (final(self)@, r@) == step(old(self)@, Event::TaskFired(lane)),
    {
        self.pending = None;
        self.draw()
    }

    /// Answers one event.
    pub fn handle(&mut self, e: Event) -> (r: Vec<Action>)
        ensures
            (final(self)@, r@) == step(old(self)@, e),
    {
        match e {
            Event::Configure => self.configure(),
            Event::CloseRequest => self.request_close(),
            Event::BufferReleased(i) => self.buffer_released(i),
            Event::TaskFired(lane) => self.task_fired(lane),
        }
    }
}

} // verus!
