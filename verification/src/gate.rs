//! The delayed observer gate.
//!
//! A progress observer is expensive to show for a transfer that finishes
//! almost at once, so the observer gate races a grace timer against a "no longer
//! needed" signal: only if the timer elapses first is an observer ever
//! constructed.  Progress messages sent before that decision are buffered
//! and consumed once — and only if — the observer becomes active.
//!
//! The timer itself, the task that runs the race and the thread that drives
//! a real observer are the caller's; they report back by feeding events
//! (`on_grace_elapsed`, `drain`, `stop`) into this state machine, which
//! decides every transition.

use vstd::prelude::*;

verus! {

/// A message for the progress observer.  `Quit` is always the terminal
/// message of a run.
pub enum Signal {
    Quit,
    AdvanceDelta(u32),
    Advance,
    UpdateStatus(String),
}

/// Lifecycle of the (possibly never constructed) observer.
#[derive(Clone, Copy)]
pub enum ObserverLifecycleState {
    /// The grace timer is still running; no observer exists.
    Pending,
    /// The timer elapsed first; the observer exists and consumes messages.
    Active,
    /// A stop was requested of an active observer; its teardown is under way.
    Closing,
    /// Terminal: no observer will ever be consulted again.
    Closed,
}

/// What can happen to the observer gate.
pub enum GateEvent {
    /// The grace timer elapsed.
    GraceElapsed,
    /// A message was offered for the observer.
    Enqueue(Signal),
    /// An active observer consumed the whole buffered batch.
    Drain,
    /// Stop was requested: `Quit` becomes the terminal message and the
    /// "no longer needed" signal fires.
    RequestStop,
    /// The teardown of a closing observer finished.
    TeardownComplete,
}

/// The observer gate's abstract state.
pub ghost struct GateModel {
    pub state: ObserverLifecycleState,
    pub queue: Seq<Signal>,
    pub constructions: int,
}

/// After this point an enqueued message can no longer be delivered.
pub open spec fn receiver_gone(m: GateModel) -> bool {
    m.state is Closing || m.state is Closed
}

/// The one transition relation of the observer gate.  `Closed` absorbs every event.
pub open spec fn gate_step(m: GateModel, e: GateEvent) -> GateModel {
    match e {
        GateEvent::GraceElapsed => if m.state is Pending {
            GateModel { state: ObserverLifecycleState::Active, constructions: m.constructions + 1, ..m }
        } else {
            m
        },
        GateEvent::Enqueue(s) => if receiver_gone(m) {
            m
        } else {
            GateModel { queue: m.queue.push(s), ..m }
        },
        GateEvent::Drain => if m.state is Active {
            GateModel {
                state: if m.queue.contains(Signal::Quit) {
                    ObserverLifecycleState::Closed
                } else {
                    ObserverLifecycleState::Active
                },
                queue: Seq::empty(),
                ..m
            }
        } else {
            m
        },
        GateEvent::RequestStop => match m.state {
            ObserverLifecycleState::Pending => GateModel {
                state: ObserverLifecycleState::Closed,
                queue: Seq::empty(),
                ..m
            },
            ObserverLifecycleState::Active => GateModel {
                state: ObserverLifecycleState::Closing,
                queue: m.queue.push(Signal::Quit),
                ..m
            },
            _ => m,
        },
        GateEvent::TeardownComplete => if m.state is Closing {
            GateModel { state: ObserverLifecycleState::Closed, queue: Seq::empty(), ..m }
        } else {
            m
        },
    }
}

/// The state after a whole sequence of events.
pub open spec fn gate_run(m: GateModel, es: Seq<GateEvent>) -> GateModel
    decreases es.len(),
{
    if es.len() == 0 {
        m
    } else {
        gate_run(gate_step(m, es.first()), es.drop_first())
    }
}

/// What `stop()` does: request the stop and wait out the teardown.
pub open spec fn gate_stopped(m: GateModel) -> GateModel {
    gate_step(gate_step(m, GateEvent::RequestStop), GateEvent::TeardownComplete)
}

/// Observer gate invariant: at most one observer is ever constructed — none before
/// the timer elapses, exactly one from then on — and nothing outlives
/// `Closed`.
pub open spec fn gate_wf(m: GateModel) -> bool {
    &&& (m.state is Pending ==> m.constructions == 0)
    &&& (m.state is Active || m.state is Closing ==> m.constructions == 1)
    &&& (m.state is Closed ==> m.queue.len() == 0)
    &&& 0 <= m.constructions <= 1
}

pub proof fn lemma_gate_step_preserves_wf(m: GateModel, e: GateEvent)
    requires
        gate_wf(m),
    ensures
        gate_wf(gate_step(m, e)),
{
}

pub proof fn lemma_gate_run_preserves_wf(m: GateModel, es: Seq<GateEvent>)
    requires
        gate_wf(m),
    ensures
        gate_wf(gate_run(m, es)),
    decreases es.len(),
{
    if es.len() > 0 {
        lemma_gate_step_preserves_wf(m, es.first());
        lemma_gate_run_preserves_wf(gate_step(m, es.first()), es.drop_first());
    }
}

/// `Closed` is terminal: no later event changes anything at all.
pub proof fn lemma_closed_absorbs(m: GateModel, es: Seq<GateEvent>)
    requires
        gate_wf(m),
        m.state is Closed,
    ensures
        gate_run(m, es) == m,
    decreases es.len(),
{
    if es.len() > 0 {
        assert(gate_step(m, es.first()) == m);
        lemma_closed_absorbs(m, es.drop_first());
    }
}

/// If stop is requested while the observer gate is still pending, no observer is
/// ever constructed, whatever happens afterwards.
pub proof fn lemma_stop_before_grace_never_constructs(m: GateModel, es: Seq<GateEvent>)
    requires
        gate_wf(m),
        m.state is Pending,
    ensures
        gate_run(gate_step(m, GateEvent::RequestStop), es).constructions == 0,
{
    lemma_closed_absorbs(gate_step(m, GateEvent::RequestStop), es);
}

/// Once an observer was constructed, none is ever constructed again: after
/// the grace timer elapses on a pending observer gate, the construction count is one
/// and stays one, whatever happens afterwards.
pub proof fn lemma_grace_elapse_constructs_exactly_once(m: GateModel, es: Seq<GateEvent>)
    requires
        gate_wf(m),
        m.state is Pending,
    ensures
        gate_run(gate_step(m, GateEvent::GraceElapsed), es).constructions == 1,
{
    lemma_constructions_stable(gate_step(m, GateEvent::GraceElapsed), es);
}

/// A observer gate that has left `Pending` never constructs another observer.
pub proof fn lemma_constructions_stable(m: GateModel, es: Seq<GateEvent>)
    requires
        gate_wf(m),
        !(m.state is Pending),
    ensures
        gate_run(m, es).constructions == m.constructions,
        !(gate_run(m, es).state is Pending),
    decreases es.len(),
{
    if es.len() > 0 {
        lemma_gate_step_preserves_wf(m, es.first());
        lemma_constructions_stable(gate_step(m, es.first()), es.drop_first());
    }
}

/// Stopping twice is a no-op the second time.
pub proof fn lemma_stop_idempotent(m: GateModel)
    requires
        gate_wf(m),
    ensures
        gate_stopped(gate_stopped(m)) == gate_stopped(m),
{
}

/// The delayed observer gate, as held by the coordinator.
pub struct ObserverGate {
    grace_period_millis: u64,
    state: ObserverLifecycleState,
    queue: Vec<Signal>,
    constructions: u32,
}

/// Delivery failure: the consuming side is gone; callers treat this as
/// non-fatal.
pub struct SignalLost;

impl ObserverGate {
    /// How long the grace timer runs, in milliseconds.
    pub closed spec fn grace_spec(self) -> u64 {
        self.grace_period_millis
    }

    /// How long the grace timer runs, in milliseconds.
    pub fn grace_period_millis(&self) -> (r: u64)
        ensures
            r == self.grace_spec(),
    {
        self.grace_period_millis
    }

    /// How many observers this observer gate has constructed: zero or one.
    pub fn observer_constructions(&self) -> (r: u32)
        ensures
            r as int == self.model().constructions,
    {
        self.constructions
    }

    /// The current lifecycle state.
    pub fn lifecycle_state(&self) -> (r: ObserverLifecycleState)
        ensures
            r == self.model().state,
    {
        self.state
    }

    pub closed spec fn model(self) -> GateModel {
        GateModel {
            state: self.state,
            queue: self.queue@,
            constructions: self.constructions as int,
        }
    }

    pub open spec fn wf(self) -> bool {
        gate_wf(self.model())
    }

    /// Start the race of the grace timer against the stop signal.
    pub fn start(grace_period_millis: u64) -> (r: Self)
        ensures
            r.wf(),
            r.model() == (GateModel {
                state: ObserverLifecycleState::Pending,
                queue: Seq::empty(),
                constructions: 0,
            }),
            r.grace_spec() == grace_period_millis,
    {
        let r = ObserverGate {
            grace_period_millis,
            state: ObserverLifecycleState::Pending,
            queue: Vec::new(),
            constructions: 0,
        };
        proof {
            assert(r.model().queue =~= Seq::<Signal>::empty());
        }
        r
    }

    /// The grace timer elapsed.  Returns whether an observer was constructed
    /// now — which happens exactly when the observer gate was still pending.
    pub fn on_grace_elapsed(&mut self) -> (constructed: bool)
        requires
            old(self).wf(),
        ensures
            final(self).wf(),
            final(self).model() == gate_step(old(self).model(), GateEvent::GraceElapsed),
            final(self).grace_spec() == old(self).grace_spec(),
            constructed == old(self).model().state is Pending,
    {
        match self.state {
            ObserverLifecycleState::Pending => {
                self.state = ObserverLifecycleState::Active;
                self.constructions = self.constructions + 1;
                true
            },
            _ => false,
        }
    }

    /// Offer a message for the observer.  Safe before the observer exists —
    /// the message is buffered — but once the consuming side is gone the
    /// message is lost and the caller is told so.
    pub fn signal(&mut self, s: Signal) -> (r: Result<(), SignalLost>)
        requires
            old(self).wf(),
        ensures
            final(self).wf(),
            final(self).model() == gate_step(old(self).model(), GateEvent::Enqueue(s)),
            final(self).grace_spec() == old(self).grace_spec(),
            r is Ok <==> !receiver_gone(old(self).model()),
    {
        match self.state {
            ObserverLifecycleState::Closing => Err(SignalLost),
            ObserverLifecycleState::Closed => Err(SignalLost),
            _ => {
                self.queue.push(s);
                Ok(())
            },
        }
    }

    /// An active observer consumes the whole buffered batch, in order.  If
    /// the batch ends the run (`Quit` was queued), the observer gate closes.
    pub fn drain(&mut self) -> (batch: Vec<Signal>)
        requires
            old(self).wf(),
        ensures
            final(self).wf(),
            final(self).model() == gate_step(old(self).model(), GateEvent::Drain),
            final(self).grace_spec() == old(self).grace_spec(),
            if old(self).model().state is Active {
                batch@ == old(self).model().queue
            } else {
                batch@.len() == 0
            },
    {
        match self.state {
            ObserverLifecycleState::Active => {
                let mut batch: Vec<Signal> = Vec::new();
                std::mem::swap(&mut batch, &mut self.queue);
                let mut i: usize = 0;
                let mut saw_quit = false;
                while i < batch.len()
                    invariant
                        0 <= i <= batch.len(),
                        saw_quit == batch@.take(i as int).contains(Signal::Quit),
                    decreases batch.len() - i,
                {
                    match batch[i] {
                        Signal::Quit => {
                            saw_quit = true;
                        },
                        _ => {},
                    }
                    proof {
                        assert(batch@.take(i + 1).drop_last() =~= batch@.take(i as int));
                        assert(batch@.take(i + 1).last() == batch@[i as int]);
                    }
                    i += 1;
                }
                proof {
                    assert(batch@.take(batch@.len() as int) =~= batch@);
                }
                if saw_quit {
                    self.state = ObserverLifecycleState::Closed;
                }
                proof {
                    assert(self.model().queue =~= Seq::<Signal>::empty());
                }
                batch
            },
            _ => Vec::new(),
        }
    }

    /// Request the stop: `Quit` becomes the terminal message and the "no
    /// longer needed" signal fires, so a still-pending observer gate closes without
    /// ever constructing an observer.
    pub fn request_stop(&mut self)
        requires
            old(self).wf(),
        ensures
            final(self).wf(),
            final(self).model() == gate_step(old(self).model(), GateEvent::RequestStop),
            final(self).grace_spec() == old(self).grace_spec(),
    {
        match self.state {
            ObserverLifecycleState::Pending => {
                self.state = ObserverLifecycleState::Closed;
                self.queue = Vec::new();
                proof {
                    assert(self.model().queue =~= Seq::<Signal>::empty());
                }
            },
            ObserverLifecycleState::Active => {
                self.state = ObserverLifecycleState::Closing;
                self.queue.push(Signal::Quit);
            },
            _ => {},
        }
    }

    /// The teardown of a closing observer finished.
    pub fn complete_teardown(&mut self)
        requires
            old(self).wf(),
        ensures
            final(self).wf(),
            final(self).model() == gate_step(old(self).model(), GateEvent::TeardownComplete),
            final(self).grace_spec() == old(self).grace_spec(),
    {
        match self.state {
            ObserverLifecycleState::Closing => {
                self.state = ObserverLifecycleState::Closed;
                self.queue = Vec::new();
                proof {
                    assert(self.model().queue =~= Seq::<Signal>::empty());
                }
            },
            _ => {},
        }
    }

    /// Stop the observer gate and wait out any teardown.  Total and idempotent: from
    /// every state it ends `Closed`, a second call changes nothing, and it
    /// never constructs an observer.
    pub fn stop(&mut self)
        requires
            old(self).wf(),
        ensures
            final(self).wf(),
            final(self).model() == gate_stopped(old(self).model()),
            final(self).grace_spec() == old(self).grace_spec(),
            final(self).model().state is Closed,
            final(self).model().constructions == old(self).model().constructions,
    {
        self.request_stop();
        self.complete_teardown();
    }
}

} // verus!
