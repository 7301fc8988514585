//! The coordinator.
//!
//! One transfer session: check whether the destination is already
//! satisfied; otherwise start the observer gate, stream the resource into
//! the destination while forwarding every percentage rise to the observer gate, and
//! finally stop the observer gate.  A delivery failure on a rise means the observer
//! side is gone, which cancels the transfer; the partial destination is
//! then deleted.  Any transport fault aborts the transfer but keeps the
//! partial destination for diagnosis.
//!
//! The caller owns the clock and the observer: it reports, by index into
//! the chunk stream, when the grace timer elapsed and when the observer
//! side went away.  Every decision in between is made — and proved — here.

use vstd::prelude::*;
use crate::gate::{ObserverGate, ObserverLifecycleState, Signal};
use crate::progress::{percent_of, ProgressTracker};
use crate::transfer::{append_bytes, TransferError};

verus! {

/// What one session is asked to do; immutable once started.
pub struct TransferRequest {
    /// Where the resource lives.
    pub source: String,
    /// Where its bytes belong.
    pub destination: String,
}

/// How a session ended without an error.
pub enum CoordinatorOutcome {
    /// The destination was already present; nothing was transferred and no
    /// observer gate was ever started.
    AlreadySatisfied,
    /// The whole resource was streamed to the destination.
    Transferred,
}

/// The destination as the coordinator sees it: present or not, and its
/// bytes.  The caller maps this onto the real file.
pub struct Destination {
    pub present: bool,
    pub content: Vec<u8>,
}

/// One arrival on the byte stream: a chunk of data, or a transport fault.
pub enum ChunkEvent {
    Data(Vec<u8>),
    Fault(String),
}

/// How many bytes an arrival carries.
pub open spec fn event_len(e: ChunkEvent) -> int {
    match e {
        ChunkEvent::Data(c) => c@.len() as int,
        ChunkEvent::Fault(_) => 0,
    }
}

/// The bytes carried by the first `i` arrivals.
pub open spec fn bytes_upto(events: Seq<ChunkEvent>, i: int) -> int
    decreases i,
{
    if i <= 0 {
        0
    } else {
        bytes_upto(events, i - 1) + event_len(events[i - 1])
    }
}

/// The data carried by the first `i` arrivals, in order.
pub open spec fn data_upto(events: Seq<ChunkEvent>, i: int) -> Seq<u8>
    decreases i,
{
    if i <= 0 {
        Seq::empty()
    } else {
        data_upto(events, i - 1) + (match events[i - 1] {
            ChunkEvent::Data(c) => c@,
            ChunkEvent::Fault(_) => Seq::empty(),
        })
    }
}

/// The advertised total as the progress model sees it: an unknown total
/// carries no information, like a total of zero.
pub open spec fn total_model(total: Option<u64>) -> int {
    match total {
        Some(t) => t as int,
        None => 0,
    }
}

/// Whether the completed percentage rises when arrival `i` is processed —
/// exactly then is a delta forwarded to the observer gate.
pub open spec fn rises_at(events: Seq<ChunkEvent>, tm: int, i: int) -> bool {
    &&& events[i] is Data
    &&& percent_of(bytes_upto(events, i + 1), tm) > percent_of(bytes_upto(events, i), tm)
}

/// Whether arrival `i` is the transport fault that ends the session: the
/// first fault of the stream.
pub open spec fn first_fault_at(events: Seq<ChunkEvent>, i: int) -> bool {
    &&& 0 <= i < events.len()
    &&& events[i] is Fault
    &&& forall|k: int| 0 <= k < i ==> events[k] is Data
}

/// Whether the session is cancelled at arrival `i`: the observer side went
/// away before arrival `s`, and `i` is the first arrival from then on whose
/// delta can no longer be delivered — no fault ended the session first.
pub open spec fn cancels_at(events: Seq<ChunkEvent>, tm: int, s: int, i: int) -> bool {
    &&& 0 <= i < events.len()
    &&& s <= i
    &&& rises_at(events, tm, i)
    &&& forall|k: int| s <= k < i ==> !rises_at(events, tm, k)
    &&& forall|k: int| 0 <= k <= i ==> !(events[k] is Fault)
}

/// The observer gate's state and construction count at the top of iteration `j`,
/// as a function of when the grace timer elapsed and when the observer
/// side went away (the timer is served first when both hit one index).
pub open spec fn session_gate(grace_at: Option<usize>, stop_at: Option<usize>, j: int) -> (
    ObserverLifecycleState,
    int,
) {
    let graced = match grace_at {
        Some(g) => g < j,
        None => false,
    };
    let stopped = match stop_at {
        Some(s) => s < j,
        None => false,
    };
    let grace_first = match (grace_at, stop_at) {
        (Some(g), Some(s)) => g <= s,
        (Some(g), None) => true,
        _ => false,
    };
    if stopped {
        if graced && grace_first {
            (ObserverLifecycleState::Closing, 1)
        } else {
            (ObserverLifecycleState::Closed, 0)
        }
    } else if graced {
        (ObserverLifecycleState::Active, 1)
    } else {
        (ObserverLifecycleState::Pending, 0)
    }
}

pub proof fn lemma_bytes_upto_mono(events: Seq<ChunkEvent>, i: int, j: int)
    requires
        i <= j,
    ensures
        bytes_upto(events, i) <= bytes_upto(events, j),
    decreases j - i,
{
    if i < j {
        lemma_bytes_upto_mono(events, i, j - 1);
    }
}

/// Run one transfer session.
///
/// `grace_at` and `stop_at` name the arrival index just before which,
/// respectively, the grace timer elapsed and the observer side went away;
/// an index at or past the end of the stream means the event never
/// happened during the session.
pub fn run(
    dest: &mut Destination,
    total: Option<u64>,
    events: &Vec<ChunkEvent>,
    grace_period_millis: u64,
    grace_at: Option<usize>,
    stop_at: Option<usize>,
) -> (r: (Result<CoordinatorOutcome, TransferError>, Option<ObserverGate>))
    requires
        bytes_upto(events@, events@.len() as int) <= u64::MAX,
    ensures
        old(dest).present ==> (r.0 matches Ok(CoordinatorOutcome::AlreadySatisfied) && r.1 is None
            && *final(dest) == *old(dest)),
        !old(dest).present ==> (r.1 matches Some(g) && {
            &&& g.wf()
            &&& g.model().state is Closed
            &&& g.grace_spec() == grace_period_millis
        }),
        !old(dest).present ==> {
            let tm = total_model(total);
            match stop_at {
                Some(s) => forall|i: int|
                    cancels_at(events@, tm, s as int, i) ==> {
                        &&& r.0 matches Err(TransferError::Cancelled)
                        &&& !final(dest).present
                        &&& final(dest).content@ == Seq::<u8>::empty()
                        &&& (r.1 matches Some(g) ==> g.model().constructions == session_gate(
                            grace_at,
                            stop_at,
                            i + 1,
                        ).1)
                    },
                None => true,
            }
        },
        !old(dest).present ==> {
            let tm = total_model(total);
            let no_cancel = match stop_at {
                Some(s) => forall|i: int| !cancels_at(events@, tm, s as int, i),
                None => true,
            };
            no_cancel ==> forall|f: int|
                first_fault_at(events@, f) ==> {
                    &&& (r.0 matches Err(TransferError::Network(m)) && (events@[f] matches
                    ChunkEvent::Fault(w) && m@ == w@))
                    &&& final(dest).present
                    &&& final(dest).content@ == data_upto(events@, f)
                    &&& (r.1 matches Some(g) ==> g.model().constructions == session_gate(
                        grace_at,
                        stop_at,
                        f + 1,
                    ).1)
                }
        },
        !old(dest).present ==> {
            let tm = total_model(total);
            let n = events@.len() as int;
            let no_cancel = match stop_at {
                Some(s) => forall|i: int| !cancels_at(events@, tm, s as int, i),
                None => true,
            };
            let no_fault = forall|f: int| !first_fault_at(events@, f);
            no_cancel && no_fault ==> {
                &&& r.0 matches Ok(CoordinatorOutcome::Transferred)
                &&& final(dest).present
                &&& final(dest).content@ == data_upto(events@, n)
                &&& (r.1 matches Some(g) ==> g.model().constructions == session_gate(
                    grace_at,
                    stop_at,
                    n,
                ).1)
            }
        },
{
    let ghost tm = total_model(total);
    let ghost n = events@.len() as int;
    if dest.present {
        return (Ok(CoordinatorOutcome::AlreadySatisfied), None);
    }
    let mut gate = ObserverGate::start(grace_period_millis);
    dest.present = true;
    dest.content = Vec::new();
    let mut tracker = ProgressTracker::new(total);
    proof {
        if let Some(t) = total {
            if t > 0 {
                vstd::arithmetic::div_mod::lemma_div_of0(t as int);
                assert(0int * 100 == 0) by (nonlinear_arith);
            }
        }
        assert(percent_of(0, tm) == 0);
        assert(dest.content@ =~= data_upto(events@, 0));
    }
    let mut j: usize = 0;
    while j < events.len()
        invariant
            0 <= j <= events@.len(),
            !old(dest).present,
            n == events@.len() as int,
            tm == total_model(total),
            bytes_upto(events@, n) <= u64::MAX,
            tracker.wf(),
            tracker.total_spec() == total,
            total is Some ==> tracker.bytes_spec() == bytes_upto(events@, j as int),
            total is Some ==> tracker.percent_spec() == percent_of(
                bytes_upto(events@, j as int),
                tm,
            ),
            dest.present,
            dest.content@ == data_upto(events@, j as int),
            gate.wf(),
            gate.grace_spec() == grace_period_millis,
            (gate.model().state, gate.model().constructions) == session_gate(
                grace_at,
                stop_at,
                j as int,
            ),
            forall|k: int| 0 <= k < j ==> events@[k] is Data,
            match stop_at {
                Some(s) => forall|k: int| s <= k < j ==> !rises_at(events@, tm, k),
                None => true,
            },
        decreases events@.len() - j,
    {
        if let Some(g) = grace_at {
            if g == j {
                gate.on_grace_elapsed();
            }
        }
        if let Some(s) = stop_at {
            if s == j {
                gate.request_stop();
            }
        }
        proof {
            assert((gate.model().state, gate.model().constructions) == session_gate(
                grace_at,
                stop_at,
                j + 1,
            ));
        }
        match &events[j] {
            ChunkEvent::Fault(msg) => {
                let m = msg.clone();
                gate.stop();
                proof {
                    assert(first_fault_at(events@, j as int));
                    assert(forall|f: int| first_fault_at(events@, f) ==> f == j as int);
                    if let Some(s) = stop_at {
                        assert(forall|i: int| i >= j ==> !cancels_at(events@, tm, s as int, i));
                    }
                }
                return (Err(TransferError::Network(m)), Some(gate));
            },
            ChunkEvent::Data(chunk) => {
                proof {
                    lemma_bytes_upto_mono(events@, j + 1, n);
                    if let Some(t) = total {
                        tracker.lemma_wf_percent_bounded();
                    }
                }
                proof {
                    assert(events@[j as int] == ChunkEvent::Data(*chunk));
                }
                let d = tracker.record(chunk.len());
                proof {
                    assert(bytes_upto(events@, j + 1) == bytes_upto(events@, j as int)
                        + event_len(events@[j as int]));
                    assert(event_len(events@[j as int]) == chunk@.len() as int);
                    if total is Some {
                        assert(tracker.bytes_spec() == bytes_upto(events@, j + 1));
                    }
                    assert((d is Some) == rises_at(events@, tm, j as int));
                }
                if let Some(delta) = d {
                    match gate.signal(Signal::AdvanceDelta(delta)) {
                        Ok(()) => {},
                        Err(_) => {
                            // The observer side is gone: cancel, delete the
                            // partial destination, stop the observer gate.
                            gate.stop();
                            dest.present = false;
                            dest.content = Vec::new();
                            proof {
                                let s = stop_at->Some_0 as int;
                                assert(cancels_at(events@, tm, s, j as int));
                                assert(forall|i: int|
                                    cancels_at(events@, tm, s, i) ==> i == j as int);
                                assert(dest.content@ =~= Seq::<u8>::empty());
                            }
                            return (Err(TransferError::Cancelled), Some(gate));
                        },
                    }
                }
                append_bytes(&mut dest.content, chunk);
                proof {
                    assert(dest.content@ =~= data_upto(events@, j + 1));
                }
            },
        }
        j += 1;
    }
    gate.stop();
    proof {
        assert(forall|f: int| !first_fault_at(events@, f));
        if let Some(s) = stop_at {
            assert(forall|i: int| !cancels_at(events@, tm, s as int, i));
        }
    }
    (Ok(CoordinatorOutcome::Transferred), Some(gate))
}

} // verus!
