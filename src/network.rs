//! The session's side of the connection: the queue of outbound batches that
//! the send unit drains, and the clock calibration run over it.
use vstd::prelude::*;

use crate::clock::{CalibrationStep, ClockAligner};
use crate::protocol::{InboundMessage, OutboundRequest, SyncError};

verus! {

/// A connection to the server, as far as the session's decisions go.
pub struct NetworkConnection<C> {
    pub server_addr: String,
    /// Batches waiting for the send unit, oldest first; each one goes out
    /// in its own order.
    pub outbound: Vec<Vec<OutboundRequest<C>>>,
    pub clock: ClockAligner,
}

impl<C> NetworkConnection<C> {
    pub open spec fn wf(&self) -> bool {
        self.clock.wf()
    }

    /// A connection to `server_addr` with nothing queued and offset zero.
    pub fn new(server_addr: String) -> (r: Self)
        ensures
            r.wf(),
            r.server_addr@ == server_addr@,
            r.outbound@.len() == 0,
            r.clock.offset == 0,
            !r.clock.collecting,
    {
        NetworkConnection { server_addr, outbound: Vec::new(), clock: ClockAligner::new() }
    }

    /// Queues `msgs` as one batch; an empty batch is not queued.
    pub fn send_multiple(&mut self, msgs: Vec<OutboundRequest<C>>)
        ensures
            final(self).outbound@ == if msgs@.len() == 0 {
                old(self).outbound@
            } else {
                old(self).outbound@.push(msgs)
            },
            final(self).clock == old(self).clock,
            final(self).server_addr == old(self).server_addr,
    {
        if msgs.len() > 0 {
            self.outbound.push(msgs);
        }
    }

    /// Queues one request as a batch of its own.
    pub fn send(&mut self, msg: OutboundRequest<C>)
        ensures
            final(self).outbound@.len() == old(self).outbound@.len() + 1,
            final(self).outbound@.subrange(0, old(self).outbound@.len() as int)
                == old(self).outbound@,
            final(self).outbound@.last()@ == seq![msg],
            final(self).clock == old(self).clock,
            final(self).server_addr == old(self).server_addr,
    {
        let ghost m = msg;
        let batch = vec![msg];
        assert(batch@ == seq![m]);
        self.send_multiple(batch);
        assert(self.outbound@.subrange(0, old(self).outbound@.len() as int)
            =~= old(self).outbound@);
    }

    /// Hands all queued batches to the send unit, oldest first.
    pub fn take_outbound(&mut self) -> (r: Vec<Vec<OutboundRequest<C>>>)
        ensures
            r@ == old(self).outbound@,
            final(self).outbound@.len() == 0,
            final(self).clock == old(self).clock,
            final(self).server_addr == old(self).server_addr,
    {
        let mut taken: Vec<Vec<OutboundRequest<C>>> = Vec::new();
        std::mem::swap(&mut taken, &mut self.outbound);
        taken
    }

    /// The current clock offset (ms) between server and local time.
    pub fn time_delay(&self) -> (r: i64)
        ensures
            r == self.clock.offset,
    {
        self.clock.offset
    }

    /// Starts a clock calibration: asks for the first sample.
    pub fn sync_clock(&mut self)
        requires
            old(self).wf(),
        ensures
            final(self).wf(),
            final(self).clock.collecting,
            final(self).clock.samples@.len() == 0,
            final(self).clock.offset == old(self).clock.offset,
            final(self).outbound@.len() == old(self).outbound@.len() + 1,
            final(self).outbound@.subrange(0, old(self).outbound@.len() as int)
                == old(self).outbound@,
            final(self).outbound@.last()@.len() == 1,
            final(self).outbound@.last()@[0] is RequestClockSample,
            final(self).server_addr == old(self).server_addr,
    {
        self.clock.begin();
        self.send(OutboundRequest::RequestClockSample);
    }

    /// Handles a message that arrived while calibration waits for a clock
    /// sample, `rtt_ms` after the request went out and at local time
    /// `local_ms`. A clock sample is recorded, and another is asked for while
    /// the calibration needs more; any other message is out of phase: it
    /// violates the protocol and ends the calibration, the offset unchanged.
    pub fn on_clock_response<W>(
        &mut self,
        msg: InboundMessage<W, C>,
        rtt_ms: u64,
        local_ms: u64,
    ) -> (r: Result<CalibrationStep, SyncError>)
        requires
            old(self).wf(),
        ensures
            final(self).wf(),
            match msg {
                InboundMessage::ClockSample(ts) => old(self).clock.records_sample(
                    final(self).clock,
                    ts,
                    rtt_ms,
                    local_ms,
                    r,
                ),
                _ => {
                    &&& r == Err::<CalibrationStep, SyncError>(
                        SyncError::ClockSyncProtocolViolation,
                    )
                    &&& !final(self).clock.collecting
                    &&& final(self).clock.offset == old(self).clock.offset
                },
            },
            final(self).server_addr == old(self).server_addr,
            r == Ok::<CalibrationStep, SyncError>(CalibrationStep::Continue) ==> {
                &&& final(self).outbound@.len() == old(self).outbound@.len() + 1
                &&& final(self).outbound@.subrange(0, old(self).outbound@.len() as int)
                    == old(self).outbound@
                &&& final(self).outbound@.last()@.len() == 1
                &&& final(self).outbound@.last()@[0] is RequestClockSample
            },
            r != Ok::<CalibrationStep, SyncError>(CalibrationStep::Continue)
                ==> final(self).outbound@ == old(self).outbound@,
    {
        match msg {
            InboundMessage::ClockSample(ts) => {
                let step = self.clock.on_sample(ts, rtt_ms, local_ms);
                if let Ok(CalibrationStep::Continue) = step {
                    self.send(OutboundRequest::RequestClockSample);
                }
                step
            },
            _ => {
                self.clock.abort();
                Err(SyncError::ClockSyncProtocolViolation)
            },
        }
    }
}

} // verus!
