//! The arbiter: dispatching validated requests to the device channel one at
//! a time and collecting the replies in order.
//!
//! Transport handlers submit `Clean` requests into a bounded queue.  The
//! dispatch step takes the oldest request, computes the device action it
//! calls for, and, when the action produces a reply, opens the single
//! in-flight reply slot.  The device-completion event fills that slot, and
//! the routing step hands the finished reply back for the transport to
//! write out.  A new request is dispatched only once the previous reply has
//! left the engine, so no two in-flight transactions ever coexist.

use vstd::prelude::*;
use crate::protocol::host::{Clean, HostRequest, ValidInterfaces, ValidOps};
use crate::protocol::slave::{NotReady, Ready, SlaveResponse};
use crate::protocol::{Send, ValidHostInterfaces};
use crate::queue::Fifo;

verus! {

/// Slots in the request hand-off queue.
pub const REQUEST_QUEUE_DEPTH: usize = 3;

/// The clock-divisor code that selects the precomputed 2.5 MHz divisor.
pub const CLKDIV_CODE_2M5: u32 = 25;

/// The clock-divisor code that selects the precomputed 10 MHz divisor.
pub const CLKDIV_CODE_10M: u32 = 10;

/// What the hardware must do for a dispatched request.  The caller performs
/// the action; the engine only decides it.
#[derive(Copy, Clone, PartialEq, Eq, Structural, Debug)]
pub enum DispatchAction {
    /// Write this word to the SMI transmit queue; a reply will follow.
    SmiSend(u32),
    /// Reprogram the device clock divisor with this fixed-point value.
    SetClockDivisor { int_part: u16, frac_part: u8 },
    /// Drive the output pin high or low.
    SetPin(bool),
    /// The request asks nothing of the device.
    NoAction,
}

/// The record an open reply slot keeps: where the reply must go and which
/// request it answers.
pub struct PendingModel {
    pub proc_id: u8,
    pub host_config: ValidHostInterfaces,
}

/// A finished reply as the routing step hands it out.
pub struct ReadyModel {
    pub proc_id: u8,
    pub host_config: ValidHostInterfaces,
    pub payload: u32,
}

/// The engine state as the contracts see it: the queued requests in order,
/// the open reply slot, and the finished reply awaiting routing.
#[verifier::ext_equal]
pub struct EngineModel {
    pub requests: Seq<HostRequest<Clean>>,
    pub pending: Option<PendingModel>,
    pub ready: Option<ReadyModel>,
}

/// Whether dispatching this request opens a reply slot.  Only the SMI
/// channel answers; configuration and pin commands are fire-and-forget.
pub open spec fn expects_reply(hr: HostRequest<Clean>) -> bool {
    hr.interface is SMI
}

/// The device action a request calls for.
pub open spec fn action_of(hr: HostRequest<Clean>) -> DispatchAction {
    if hr.interface is SMI {
        DispatchAction::SmiSend(hr.payload[0])
    } else if hr.interface is Config && hr.operation is SetOp {
        if hr.payload[0] == CLKDIV_CODE_2M5 {
            DispatchAction::SetClockDivisor { int_part: 4, frac_part: 145 }
        } else if hr.payload[0] == CLKDIV_CODE_10M {
            DispatchAction::SetClockDivisor { int_part: 1, frac_part: 145 }
        } else {
            DispatchAction::SetClockDivisor { int_part: hr.payload[0] as u16, frac_part: 0 }
        }
    } else if hr.interface is GPIO {
        DispatchAction::SetPin(hr.payload[0] != 0)
    } else {
        DispatchAction::NoAction
    }
}

/// A model state the engine can actually be in.
pub open spec fn model_wf(m: EngineModel) -> bool {
    &&& m.requests.len() <= REQUEST_QUEUE_DEPTH
    &&& !(m.pending is Some && m.ready is Some)
}

/// No transaction is in flight and no reply awaits routing.
pub open spec fn model_idle(m: EngineModel) -> bool {
    m.pending is None && m.ready is None
}

/// What submitting a request does: appended when a slot is free, dropped
/// when the queue is full.  The second component tells whether it was
/// accepted.
pub open spec fn submit_step(m: EngineModel, req: HostRequest<Clean>) -> (EngineModel, bool) {
    if m.requests.len() < REQUEST_QUEUE_DEPTH {
        (EngineModel { requests: m.requests.push(req), ..m }, true)
    } else {
        (m, false)
    }
}

/// What one dispatch pass does: nothing while a reply is in flight or
/// awaiting routing, otherwise the oldest request leaves the queue and its
/// action is produced, opening the reply slot when the action answers.
pub open spec fn dispatch_step(m: EngineModel) -> (EngineModel, Option<DispatchAction>) {
    if m.pending is Some || m.ready is Some {
        (m, None)
    } else if m.requests.len() == 0 {
        (m, None)
    } else {
        let hr = m.requests[0];
        let pending = if expects_reply(hr) {
            Some(PendingModel { proc_id: hr.proc_id, host_config: hr.host_config })
        } else {
            None
        };
        (EngineModel { requests: m.requests.skip(1), pending, ..m }, Some(action_of(hr)))
    }
}

/// What the device-completion event does: the open slot becomes a finished
/// reply carrying the word the device produced, or zero when it produced
/// none.  The second component tells whether a slot was open.
pub open spec fn complete_step(m: EngineModel, word: Option<u32>) -> (EngineModel, bool) {
    match m.pending {
        Some(p) => (
            EngineModel {
                pending: None,
                ready: Some(
                    ReadyModel {
                        proc_id: p.proc_id,
                        host_config: p.host_config,
                        payload: match word {
                            Some(w) => w,
                            None => 0u32,
                        },
                    },
                ),
                ..m
            },
            true,
        ),
        None => (m, false),
    }
}

/// What routing does: the finished reply leaves the engine, freeing the
/// in-flight slot for the next dispatch.
pub open spec fn route_step(m: EngineModel) -> (EngineModel, Option<ReadyModel>) {
    match m.ready {
        Some(sr) => (EngineModel { ready: None, ..m }, Some(sr)),
        None => (m, None),
    }
}

/// The finished reply a `Ready` response stands for.
pub open spec fn response_model(sr: SlaveResponse<Ready>) -> ReadyModel {
    ReadyModel { proc_id: sr.proc_id, host_config: sr.host_config, payload: sr.payload }
}

/// The protocol engine: the request queue, the single in-flight reply slot,
/// and the finished reply awaiting routing.
pub struct Engine {
    pub requests: Fifo<HostRequest<Clean>>,
    pub pending: Option<SlaveResponse<NotReady>>,
    pub ready: Option<SlaveResponse<Ready>>,
}

impl Engine {
    /// The model state this engine is in.
    pub open spec fn model(&self) -> EngineModel {
        EngineModel {
            requests: self.requests@,
            pending: match self.pending {
                Some(sr) => Some(
                    PendingModel { proc_id: sr.proc_id, host_config: sr.host_config },
                ),
                None => None,
            },
            ready: match self.ready {
                Some(sr) => Some(response_model(sr)),
                None => None,
            },
        }
    }

    /// The internal invariant: the queue keeps its three slots, at most one
    /// reply is anywhere in flight, and an open reply slot is still blank.
    pub open spec fn wf(&self) -> bool {
        &&& self.requests.wf()
        &&& self.requests.cap() == REQUEST_QUEUE_DEPTH
        &&& !(self.pending is Some && self.ready is Some)
        &&& (self.pending matches Some(sr) ==> sr.size == 0 && sr.payload == 0)
    }

    /// An idle engine with empty queues.
    pub fn new() -> (e: Engine)
        ensures
            e.wf(),
            e.model().requests == Seq::<HostRequest<Clean>>::empty(),
            model_idle(e.model()),
    {
        Engine { requests: Fifo::new(REQUEST_QUEUE_DEPTH), pending: None, ready: None }
    }

    /// Accepts a validated request into the hand-off queue, or reports the
    /// queue full and drops it.
    pub fn submit(&mut self, req: HostRequest<Clean>) -> (r: Result<(), &'static str>)
        requires
            old(self).wf(),
        ensures
            final(self).wf(),
            final(self).model() == submit_step(old(self).model(), req).0,
            r is Ok == submit_step(old(self).model(), req).1,
            r is Err ==> r->Err_0 == "Error Pushing Host Request to queue\n\r",
    {
        let ghost target = submit_step(old(self).model(), req).0;
        match self.requests.enqueue(req) {
            Ok(()) => {
                proof {
                    assert(self.model() =~= target);
                }
                Ok(())
            },
            Err(_dropped) => {
                proof {
                    assert(self.model() =~= target);
                }
                Err("Error Pushing Host Request to queue\n\r")
            },
        }
    }

    /// One pass of the dispatch task: holds still while a reply is in
    /// flight, otherwise takes the oldest request and decides the device
    /// action, opening the reply slot when one will answer.
    pub fn dispatch(&mut self) -> (r: Option<DispatchAction>)
        requires
            old(self).wf(),
        ensures
            final(self).wf(),
            final(self).model() == dispatch_step(old(self).model()).0,
            r == dispatch_step(old(self).model()).1,
    {
        let ghost target = dispatch_step(old(self).model()).0;
        if self.pending.is_some() || self.ready.is_some() {
            proof {
                assert(self.model() =~= target);
            }
            return None;
        }
        let hr = self.requests.dequeue();
        match hr {
            None => {
                proof {
                    assert(self.model() =~= target);
                }
                None
            },
            Some(mut hr) => {
                let action = match hr.interface {
                    ValidInterfaces::SMI => {
                        match hr.exchange_for_slave_response() {
                            Ok(sr) => {
                                self.pending = Some(sr);
                            },
                            Err(_) => {
                                proof {
                                    assert(false);
                                }
                            },
                        }
                        DispatchAction::SmiSend(hr.payload[0])
                    },
                    ValidInterfaces::Config => {
                        if hr.operation == ValidOps::SetOp {
                            if hr.payload[0] == CLKDIV_CODE_2M5 {
                                DispatchAction::SetClockDivisor { int_part: 4, frac_part: 145 }
                            } else if hr.payload[0] == CLKDIV_CODE_10M {
                                DispatchAction::SetClockDivisor { int_part: 1, frac_part: 145 }
                            } else {
                                DispatchAction::SetClockDivisor {
                                    int_part: hr.payload[0] as u16,
                                    frac_part: 0,
                                }
                            }
                        } else {
                            DispatchAction::NoAction
                        }
                    },
                    ValidInterfaces::GPIO => {
                        DispatchAction::SetPin(hr.payload[0] != 0)
                    },
                    _ => DispatchAction::NoAction,
                };
                proof {
                    assert(self.model() =~= target);
                }
                Some(action)
            },
        }
    }

    /// The device-completion event: fills the open reply slot with the word
    /// the device produced, if it produced one, and promotes the reply to
    /// ready.  Reports whether a slot was open at all.
    pub fn complete(&mut self, word: Option<u32>) -> (r: bool)
        requires
            old(self).wf(),
        ensures
            final(self).wf(),
            final(self).model() == complete_step(old(self).model(), word).0,
            r == complete_step(old(self).model(), word).1,
    {
        let ghost target = complete_step(old(self).model(), word).0;
        let pending = self.pending.take();
        match pending {
            None => {
                proof {
                    assert(self.model() =~= target);
                }
                false
            },
            Some(mut sr) => {
                match word {
                    Some(w) => {
                        sr.set_payload(w);
                    },
                    None => {},
                }
                match sr.init_ready() {
                    Ok(ready) => {
                        self.ready = Some(ready);
                    },
                    Err(_) => {
                        proof {
                            assert(false);
                        }
                    },
                }
                proof {
                    assert(self.model() =~= target);
                }
                true
            },
        }
    }

    /// Hands the finished reply out for the transport to write back,
    /// freeing the in-flight slot.
    pub fn route(&mut self) -> (r: Option<SlaveResponse<Ready>>)
        requires
            old(self).wf(),
        ensures
            final(self).wf(),
            final(self).model() == route_step(old(self).model()).0,
            (match r {
                Some(sr) => Some(response_model(sr)),
                None => None,
            }) == route_step(old(self).model()).1,
    {
        let ghost target = route_step(old(self).model()).0;
        let r = self.ready.take();
        proof {
            assert(self.model() =~= target);
        }
        r
    }
}

/// Two valid requests submitted back to back are never both in flight: the
/// first dispatch takes the first request and opens the reply slot, and
/// every further dispatch holds still — through the hardware completion —
/// until the first reply has been routed out.  Only then is the second
/// request dispatched.
pub proof fn lemma_single_in_flight(
    m0: EngineModel,
    r1: HostRequest<Clean>,
    r2: HostRequest<Clean>,
    word: Option<u32>,
)
    requires
        model_wf(m0),
        model_idle(m0),
        m0.requests.len() == 0,
        expects_reply(r1),
    ensures
        ({
            let m1 = submit_step(m0, r1).0;
            let m2 = submit_step(m1, r2).0;
            let m3 = dispatch_step(m2).0;
            let m4 = complete_step(m3, word).0;
            let m5 = route_step(m4).0;
            &&& submit_step(m0, r1).1
            &&& submit_step(m1, r2).1
            &&& dispatch_step(m2).1 == Some(action_of(r1))
            &&& m3.pending is Some
            &&& dispatch_step(m3).1 is None
            &&& dispatch_step(m3).0 == m3
            &&& dispatch_step(m4).1 is None
            &&& dispatch_step(m4).0 == m4
            &&& (route_step(m4).1 matches Some(sr) && sr.proc_id == r1.proc_id && sr.host_config
                == r1.host_config)
            &&& dispatch_step(m5).1 == Some(action_of(r2))
        }),
{
    let m1 = submit_step(m0, r1).0;
    let m2 = submit_step(m1, r2).0;
    assert(m2.requests[0] == r1);
    assert(m2.requests.len() == 2);
    let m3 = dispatch_step(m2).0;
    assert(m3.requests =~= m2.requests.skip(1));
    assert(m3.requests[0] == r2);
    let m4 = complete_step(m3, word).0;
    let m5 = route_step(m4).0;
    assert(m5.requests[0] == r2);
}

/// The replies an idle engine hands out while its queue is drained, one
/// full dispatch/completion/routing cycle per device word.
pub open spec fn routed_trace(m: EngineModel, words: Seq<u32>) -> Seq<ReadyModel>
    decreases words.len(),
{
    if words.len() == 0 {
        Seq::empty()
    } else {
        let m1 = dispatch_step(m).0;
        let m2 = complete_step(m1, Some(words[0])).0;
        let m3 = route_step(m2).0;
        match route_step(m2).1 {
            Some(sr) => seq![sr] + routed_trace(m3, words.skip(1)),
            None => routed_trace(m3, words.skip(1)),
        }
    }
}

/// Replies keep the order of requests: draining an idle engine routes
/// exactly one reply per queued reply-producing request, in queue order,
/// each carrying its request's correlation id and originating transport and
/// the device word of its own cycle.
pub proof fn lemma_fifo_order(m: EngineModel, words: Seq<u32>)
    requires
        model_wf(m),
        model_idle(m),
        words.len() == m.requests.len(),
        forall|i: int| 0 <= i < m.requests.len() ==> expects_reply(#[trigger] m.requests[i]),
    ensures
        routed_trace(m, words) == Seq::new(
            m.requests.len(),
            |i: int|
                ReadyModel {
                    proc_id: m.requests[i].proc_id,
                    host_config: m.requests[i].host_config,
                    payload: words[i],
                },
        ),
    decreases words.len(),
{
    let target = Seq::new(
        m.requests.len(),
        |i: int|
            ReadyModel {
                proc_id: m.requests[i].proc_id,
                host_config: m.requests[i].host_config,
                payload: words[i],
            },
    );
    if words.len() == 0 {
        assert(routed_trace(m, words) =~= target);
    } else {
        let hr = m.requests[0];
        assert(expects_reply(hr));
        let m1 = dispatch_step(m).0;
        let m2 = complete_step(m1, Some(words[0])).0;
        let m3 = route_step(m2).0;
        assert(m3.requests =~= m.requests.skip(1));
        assert(model_wf(m3) && model_idle(m3));
        assert(forall|i: int|
            0 <= i < m3.requests.len() ==> expects_reply(#[trigger] m3.requests[i]));
        lemma_fifo_order(m3, words.skip(1));
        assert(routed_trace(m, words) =~= target);
    }
}

} // verus!
