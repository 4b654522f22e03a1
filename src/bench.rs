//! Ramp-up schedule and the event lifecycle of each session task.
use vstd::prelude::*;

use crate::stats::Stats;
use crate::whep::{DriveStep, WhepEvent};

verus! {

/// An observation published for one session, keyed by its id.
#[derive(Clone, Copy, Debug, PartialEq, Eq, Structural)]
pub enum BenchEvent {
    Connecting(usize),
    Connected(usize),
    Stats(usize, Stats),
    Disconnected(usize),
}

impl BenchEvent {
    pub open spec fn session(self) -> usize {
        match self {
            BenchEvent::Connecting(id) => id,
            BenchEvent::Connected(id) => id,
            BenchEvent::Stats(id, _) => id,
            BenchEvent::Disconnected(id) => id,
        }
    }
}

/// The benchmark plan: how many sessions, the pause between two starts and
/// the lifetime of each session, both in milliseconds.
#[derive(Clone, Copy, Debug, PartialEq, Eq, Structural)]
pub struct BenchPlan {
    pub count: usize,
    pub interval: u64,
    pub live: u64,
}

/// The ramp-up schedule: hands out session ids `1..=plan.count` in order.
pub struct BenchRunner {
    plan: BenchPlan,
    url: String,
    token: String,
    count: usize,
}

impl BenchRunner {
    pub closed spec fn spec_plan(&self) -> BenchPlan {
        self.plan
    }

    /// How many sessions have been started.
    pub closed spec fn started(&self) -> usize {
        self.count
    }

    pub closed spec fn spec_url(&self) -> Seq<char> {
        self.url@
    }

    pub closed spec fn spec_token(&self) -> Seq<char> {
        self.token@
    }

    pub fn new(url: &str, token: &str, plan: BenchPlan) -> (r: BenchRunner)
        ensures
            r.spec_plan() == plan,
            r.started() == 0,
            r.spec_url() == url@,
            r.spec_token() == token@,
    {
        BenchRunner { plan, url: url.to_owned(), token: token.to_owned(), count: 0 }
    }

    pub fn plan(&self) -> (r: BenchPlan)
        ensures
            r == self.spec_plan(),
    {
        self.plan
    }

    pub fn url(&self) -> (r: &str)
        ensures
            r@ == self.spec_url(),
    {
        self.url.as_str()
    }

    pub fn token(&self) -> (r: &str)
        ensures
            r@ == self.spec_token(),
    {
        self.token.as_str()
    }

    /// Starts the next session, if the plan has one left: its id is the
    /// number of sessions started so far, counting this one, and its lifetime
    /// counts from `now`. The owner
    /// publishes the returned task's `Connecting` event, spawns the task and
    /// pauses `plan.interval` before asking again.
    pub fn next_start(&mut self, now: u64) -> (r: Option<(SessionTask, BenchEvent)>)
        ensures
            final(self).spec_plan() == old(self).spec_plan(),
            final(self).spec_url() == old(self).spec_url(),
            final(self).spec_token() == old(self).spec_token(),
            old(self).started() < old(self).spec_plan().count ==> {
                &&& final(self).started() == old(self).started() + 1
                &&& r is Some
                &&& r->Some_0.0.id() == final(self).started()
                &&& r->Some_0.0.live() == old(self).spec_plan().live
                &&& r->Some_0.0.started_at() == now
                &&& r->Some_0.0.inv()
                &&& r->Some_0.0.phase() == Phase::Negotiating
                &&& r->Some_0.1 == BenchEvent::Connecting(final(self).started())
                &&& r->Some_0.0.trace() == seq![r->Some_0.1]
            },
            old(self).started() >= old(self).spec_plan().count ==> {
                &&& final(self).started() == old(self).started()
                &&& r is None
            },
    {
        if self.count < self.plan.count {
            self.count = self.count + 1;
            Some(SessionTask::new(self.count, self.plan.live, now))
        } else {
            None
        }
    }
}

/// Where a session task is in its life.
#[derive(Clone, Copy, Debug, PartialEq, Eq, Structural)]
pub enum Phase {
    Negotiating,
    Running,
    Ended,
}

/// What the owner of a running session does with one event of its client.
#[derive(Clone, Copy, Debug, PartialEq, Eq, Structural)]
pub enum TaskStep {
    /// Publish this event and keep driving.
    Publish(BenchEvent),
    /// Keep driving.
    Idle,
    /// The transport is gone: tear down and finish.
    Stop,
}

/// A trace that a session still in progress may have published so far:
/// `Connecting` first and only there, `Connected` at most right after it,
/// `Stats` only once connected, and no `Disconnected`.
pub closed spec fn open_trace(t: Seq<BenchEvent>, id: usize, connected: bool) -> bool {
    &&& t.len() >= 1
    &&& forall|i: int| 0 <= i < t.len() ==> (#[trigger] t[i]).session() == id
    &&& forall|i: int| 0 <= i < t.len() ==> ((#[trigger] t[i] is Connecting) <==> i == 0)
    &&& forall|i: int| 0 <= i < t.len() ==> !(#[trigger] t[i] is Disconnected)
    &&& forall|i: int| 0 <= i < t.len() && (#[trigger] t[i] is Connected) ==> i == 1
    &&& forall|i: int| 0 <= i < t.len() && (#[trigger] t[i] is Stats) ==> connected
    &&& connected <==> (t.len() > 1 && t[1] is Connected)
}

/// A complete trace of one session: an open trace followed by exactly one
/// `Disconnected`.
pub closed spec fn closed_trace(t: Seq<BenchEvent>, id: usize) -> bool {
    &&& t.len() >= 2
    &&& t.last() == BenchEvent::Disconnected(id)
    &&& open_trace(t.drop_last(), id, t.len() > 2 && t[1] is Connected)
}

/// The lifecycle of one session task, with the events it has published.
pub struct SessionTask {
    id: usize,
    live: u64,
    started: u64,
    phase: Phase,
    connected: bool,
    trace: Ghost<Seq<BenchEvent>>,
}

impl SessionTask {
    pub closed spec fn id(&self) -> usize {
        self.id
    }

    pub closed spec fn live(&self) -> u64 {
        self.live
    }

    /// When the drive loop began (milliseconds); meaningful once running.
    pub closed spec fn started_at(&self) -> u64 {
        self.started
    }

    pub closed spec fn phase(&self) -> Phase {
        self.phase
    }

    pub closed spec fn connected(&self) -> bool {
        self.connected
    }

    /// The session's events so far, oldest first.
    pub closed spec fn trace(&self) -> Seq<BenchEvent> {
        self.trace@
    }

    pub closed spec fn inv(&self) -> bool {
        if self.phase == Phase::Ended {
            &&& closed_trace(self.trace@, self.id)
            &&& self.connected == (self.trace@.len() > 2 && self.trace@[1] is Connected)
        } else {
            &&& open_trace(self.trace@, self.id, self.connected)
            &&& self.phase == Phase::Negotiating ==> self.trace@.len() == 1
        }
    }

    /// Whether the lifetime has run out at `now`: more than `live`
    /// milliseconds since the session started.
    pub open spec fn expired_at(&self, now: u64) -> bool {
        now > self.started_at() && now - self.started_at() > self.live()
    }

    /// Milliseconds from `now` until the lifetime runs out.
    pub open spec fn remaining_at(&self, now: u64) -> nat {
        let end = self.started_at() + self.live() + 1;
        if now >= end {
            0
        } else {
            (end - now) as nat
        }
    }

    /// A task for session `id`, started at `now` with a lifetime of `live`
    /// milliseconds, and the `Connecting` event that opens its trace.
    pub fn new(id: usize, live: u64, now: u64) -> (r: (SessionTask, BenchEvent))
        ensures
            r.0.id() == id,
            r.0.live() == live,
            r.0.started_at() == now,
            r.0.phase() == Phase::Negotiating,
            !r.0.connected(),
            r.0.inv(),
            r.1 == BenchEvent::Connecting(id),
            r.0.trace() == seq![r.1],
    {
        let ev = BenchEvent::Connecting(id);
        let task = SessionTask {
            id,
            live,
            started: now,
            phase: Phase::Negotiating,
            connected: false,
            trace: Ghost(Seq::empty().push(ev)),
        };
        (task, ev)
    }

    pub fn session_id(&self) -> (r: usize)
        ensures
            r == self.id(),
    {
        self.id
    }

    pub fn current_phase(&self) -> (r: Phase)
        ensures
            r == self.phase(),
    {
        self.phase
    }

    /// Negotiation succeeded: the drive loop begins.
    pub fn negotiated(&mut self)
        requires
            old(self).inv(),
            old(self).phase() == Phase::Negotiating,
        ensures
            final(self).inv(),
            final(self).phase() == Phase::Running,
            final(self).started_at() == old(self).started_at(),
            final(self).id() == old(self).id(),
            final(self).live() == old(self).live(),
            final(self).connected() == old(self).connected(),
            final(self).trace() == old(self).trace(),
    {
        self.phase = Phase::Running;
    }

    pub fn expired(&self, now: u64) -> (r: bool)
        ensures
            r == self.expired_at(now),
    {
        now > self.started && now - self.started > self.live
    }

    /// Milliseconds from `now` until the lifetime runs out, capped at `u64::MAX`.
    pub fn remaining(&self, now: u64) -> (r: u64)
        ensures
            r as nat == if self.remaining_at(now) > u64::MAX {
                u64::MAX as nat
            } else {
                self.remaining_at(now)
            },
    {
        let end: u128 = self.started as u128 + self.live as u128 + 1;
        if now as u128 >= end {
            0
        } else if end - now as u128 > u64::MAX as u128 {
            u64::MAX
        } else {
            (end - now as u128) as u64
        }
    }

    /// Bounds a wait of the drive loop by what is left of the lifetime, so
    /// that the watchdog is never slept through.
    pub fn bound_wait(&self, step: DriveStep, now: u64) -> (r: DriveStep)
        ensures
            match step {
                DriveStep::Wait { ms } => r == DriveStep::Wait {
                    ms: if ms as nat <= self.remaining_at(now) {
                        ms
                    } else {
                        self.remaining_at(now) as u64
                    },
                } && (r->Wait_ms < ms && now + r->Wait_ms <= u64::MAX ==> self.expired_at(
                    (now + r->Wait_ms) as u64,
                )),
                _ => r == step,
            },
    {
        match step {
            DriveStep::Wait { ms } => {
                let end: u128 = self.started as u128 + self.live as u128 + 1;
                let left: u128 = if now as u128 >= end {
                    0
                } else {
                    end - now as u128
                };
                if ms as u128 <= left {
                    DriveStep::Wait { ms }
                } else {
                    DriveStep::Wait { ms: left as u64 }
                }
            },
            _ => step,
        }
    }

    /// Handles one event reported by the session's client.
    pub fn on_event(&mut self, event: WhepEvent) -> (r: TaskStep)
        requires
            old(self).inv(),
            old(self).phase() == Phase::Running,
        ensures
            final(self).inv(),
            final(self).phase() == Phase::Running,
            final(self).id() == old(self).id(),
            final(self).live() == old(self).live(),
            final(self).started_at() == old(self).started_at(),
            match event {
                WhepEvent::Connected => if old(self).connected() {
                    r == TaskStep::Idle && final(self).trace() == old(self).trace()
                        && final(self).connected()
                } else {
                    &&& r == TaskStep::Publish(BenchEvent::Connected(old(self).id()))
                    &&& final(self).connected()
                    &&& final(self).trace() == old(self).trace().push(r->Publish_0)
                },
                WhepEvent::Stats(s) => if old(self).connected() {
                    &&& r == TaskStep::Publish(BenchEvent::Stats(old(self).id(), s))
                    &&& final(self).connected()
                    &&& final(self).trace() == old(self).trace().push(r->Publish_0)
                } else {
                    r == TaskStep::Idle && final(self).trace() == old(self).trace()
                        && !final(self).connected()
                },
                WhepEvent::Disconnected => {
                    &&& r == TaskStep::Stop
                    &&& final(self).trace() == old(self).trace()
                    &&& final(self).connected() == old(self).connected()
                },
                WhepEvent::Continue => {
                    &&& r == TaskStep::Idle
                    &&& final(self).trace() == old(self).trace()
                    &&& final(self).connected() == old(self).connected()
                },
            },
    {
        match event {
            WhepEvent::Connected => {
                if self.connected {
                    TaskStep::Idle
                } else {
                    let ev = BenchEvent::Connected(self.id);
                    proof {
                        assert(self.trace@.len() == 1) by {
                            if self.trace@.len() > 1 {
                                assert(self.trace@[1] is Connected <==> self.connected);
                                assert(!(self.trace@[1] is Connecting));
                                assert(!(self.trace@[1] is Disconnected));
                                assert(self.trace@[1] is Stats);
                            }
                        }
                    }
                    self.connected = true;
                    self.trace = Ghost(self.trace@.push(ev));
                    TaskStep::Publish(ev)
                }
            },
            WhepEvent::Stats(s) => {
                if self.connected {
                    let ev = BenchEvent::Stats(self.id, s);
                    self.trace = Ghost(self.trace@.push(ev));
                    TaskStep::Publish(ev)
                } else {
                    TaskStep::Idle
                }
            },
            WhepEvent::Disconnected => TaskStep::Stop,
            WhepEvent::Continue => TaskStep::Idle,
        }
    }

    /// Ends the task, from any phase but the last: publishes its one
    /// `Disconnected` event.
    pub fn finish(&mut self) -> (r: BenchEvent)
        requires
            old(self).inv(),
            old(self).phase() != Phase::Ended,
        ensures
            final(self).inv(),
            final(self).phase() == Phase::Ended,
            r == BenchEvent::Disconnected(old(self).id()),
            final(self).trace() == old(self).trace().push(r),
            final(self).id() == old(self).id(),
            final(self).connected() == old(self).connected(),
    {
        let ev = BenchEvent::Disconnected(self.id);
        self.phase = Phase::Ended;
        self.trace = Ghost(self.trace@.push(ev));
        proof {
            assert(self.trace@.drop_last() =~= old(self).trace@);
        }
        ev
    }
}

/// Whatever way a session ended, it published `Connecting` exactly once, as
/// its first event, and `Disconnected` exactly once, as its last; it
/// published `Connected` at most once, and every event carries its id.
pub proof fn lemma_session_bookends(task: SessionTask)
    requires
        task.inv(),
        task.phase() == Phase::Ended,
    ensures
        task.trace().len() >= 2,
        task.trace()[0] == BenchEvent::Connecting(task.id()),
        task.trace().last() == BenchEvent::Disconnected(task.id()),
        forall|i: int|
            0 <= i < task.trace().len() ==> (#[trigger] task.trace()[i]).session() == task.id(),
        forall|i: int|
            0 <= i < task.trace().len() ==> ((#[trigger] task.trace()[i] is Connecting) <==> i
                == 0),
        forall|i: int|
            0 <= i < task.trace().len() ==> ((#[trigger] task.trace()[i] is Disconnected) <==> i
                == task.trace().len() - 1),
        forall|i: int, j: int|
            0 <= i < task.trace().len() && 0 <= j < task.trace().len() && (
            #[trigger] task.trace()[i] is Connected) && (#[trigger] task.trace()[j] is Connected)
                ==> i == j,
{
    let t = task.trace();
    let h = t.drop_last();
    assert forall|i: int| 0 <= i < t.len() - 1 implies t[i] == #[trigger] h[i] by {}
    assert(h[0] is Connecting);
    assert(h[0].session() == task.id());
    assert forall|i: int| 0 <= i < t.len() implies (#[trigger] t[i]).session() == task.id() && ((
    t[i] is Connecting) <==> i == 0) && ((t[i] is Disconnected) <==> i == t.len() - 1) by {
        if i < t.len() - 1 {
            assert(t[i] == h[i]);
        }
    }
    assert forall|i: int, j: int|
        0 <= i < t.len() && 0 <= j < t.len() && (#[trigger] t[i] is Connected) && (
        #[trigger] t[j] is Connected) implies i == j by {
        if i < t.len() - 1 {
            assert(h[i] is Connected);
        }
        if j < t.len() - 1 {
            assert(h[j] is Connected);
        }
    }
}

/// A session that connected and has ended published exactly `Connecting`,
/// then `Connected`, then only `Stats`, then `Disconnected`.
pub proof fn lemma_successful_session_order(task: SessionTask)
    requires
        task.inv(),
        task.phase() == Phase::Ended,
        task.connected(),
    ensures
        task.trace().len() >= 3,
        task.trace()[0] == BenchEvent::Connecting(task.id()),
        task.trace()[1] == BenchEvent::Connected(task.id()),
        forall|i: int| 2 <= i < task.trace().len() - 1 ==> (#[trigger] task.trace()[i] is Stats),
        task.trace().last() == BenchEvent::Disconnected(task.id()),
{
    lemma_session_bookends(task);
    let t = task.trace();
    assert(t[1].session() == task.id());
    assert forall|i: int| 2 <= i < t.len() - 1 implies (#[trigger] t[i] is Stats) by {
        assert(!(t[i] is Connecting));
        assert(!(t[i] is Disconnected));
        if t[i] is Connected {
            assert(t[1] is Connected);
        }
    }
}

/// A bounded wait ends at the engine's own deadline or at a moment when the
/// lifetime has run out, so the watchdog is late by at most one step of the
/// drive loop.
pub proof fn lemma_bounded_wait_meets_lifetime(task: SessionTask, ms: u64, now: u64)
    requires
        now + ms <= u64::MAX,
    ensures
        ({
            let w = if ms as nat <= task.remaining_at(now) {
                ms as nat
            } else {
                task.remaining_at(now)
            };
            w == ms || task.expired_at((now + w) as u64)
        }),
{
}

} // verus!
