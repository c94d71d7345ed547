//! The ingestion pipeline: receive order, fan-out and cooperative shutdown.
//!
//! The [`Collector`] is the decision core of the ingestion loop. The loop's
//! owner hands it each received datagram and the shutdown requests it
//! observes; the collector decodes, keeps the durable record log in receipt
//! order, and walks the phases `Running` -> `Draining` -> stopped. The
//! stopped state is not a flag: [`Collector::finalize`] consumes the
//! collector, so no append after finalization can even be written.
//!
//! The error policy is the loop owner's, and explicit: a datagram that does
//! not decode is handed back as an error with nothing recorded, and the
//! owner either goes on receiving (the policy suited to a long-running
//! collector) or requests shutdown and finalizes, losing nothing either
//! way.

use vstd::prelude::*;

use crate::decode::DecodeError;
use crate::decode::decode;
use crate::decode::spec_message;
use crate::reading::SensorReading;
use crate::reading::spec_output;

verus! {

/// The live phases of the ingestion loop. The terminal (stopped) state has
/// no variant: it is reached by consuming the collector.
#[derive(Clone, Copy, Debug, PartialEq, Eq, Structural)]
pub enum Phase {
    Running,
    Draining,
}

/// The collector's abstract state: its phase and the durable record log in
/// receipt order.
#[verifier::ext_equal]
pub ghost struct CollectorView {
    pub phase: Phase,
    pub records: Seq<SensorReading>,
}

/// The readings a single message contributes to the record log: one if it
/// decodes, none otherwise.
pub open spec fn message_outputs(m: Seq<u8>) -> Seq<SensorReading> {
    match spec_message(m) {
        Some(raw) => seq![spec_output(raw)],
        None => Seq::empty(),
    }
}

/// The readings a sequence of messages contributes, in receipt order.
pub open spec fn decoded_outputs(msgs: Seq<Seq<u8>>) -> Seq<SensorReading>
    decreases msgs.len(),
{
    if msgs.len() == 0 {
        Seq::empty()
    } else {
        decoded_outputs(msgs.drop_last()) + message_outputs(msgs.last())
    }
}

/// What requesting shutdown does to the abstract state: the phase becomes
/// `Draining`; the record log is untouched.
pub open spec fn spec_on_shutdown(v: CollectorView) -> CollectorView {
    CollectorView { phase: Phase::Draining, records: v.records }
}

/// Requesting shutdown twice is the same as requesting it once, so a
/// repeated termination signal is harmless.
pub proof fn lemma_shutdown_idempotent(v: CollectorView)
    ensures
        spec_on_shutdown(spec_on_shutdown(v)) == spec_on_shutdown(v),
{
}

/// A sequence of messages that all decode is recorded completely: the log
/// holds exactly one reading per message, in receipt order, each the
/// normalized output of its message.
pub proof fn lemma_valid_sequence_recorded(msgs: Seq<Seq<u8>>)
    requires
        forall|k: int| 0 <= k < msgs.len() ==> spec_message(msgs[k]) is Some,
    ensures
        decoded_outputs(msgs).len() == msgs.len(),
        forall|k: int|
            #![trigger msgs[k]]
            0 <= k < msgs.len() ==> (spec_message(msgs[k]) matches Some(raw)
                && decoded_outputs(msgs)[k] == spec_output(raw)),
    decreases msgs.len(),
{
    if msgs.len() > 0 {
        let pre = msgs.drop_last();
        assert forall|k: int| 0 <= k < pre.len() implies spec_message(pre[k]) is Some by {
            assert(pre[k] == msgs[k]);
        }
        lemma_valid_sequence_recorded(pre);
        assert(spec_message(msgs.last()) is Some);
        assert forall|k: int|
            #![trigger msgs[k]]
            0 <= k < msgs.len() implies (spec_message(msgs[k]) matches Some(raw)
            && decoded_outputs(msgs)[k] == spec_output(raw)) by {
            if k < msgs.len() - 1 {
                assert(pre[k] == msgs[k]);
                assert(decoded_outputs(msgs)[k] == decoded_outputs(pre)[k]);
            } else {
                assert(msgs[k] == msgs.last());
            }
        }
    }
}

/// Appending one message to a batch appends that message's contribution to
/// the batch's outputs.
proof fn lemma_decoded_outputs_push(msgs: Seq<Seq<u8>>, m: Seq<u8>)
    ensures
        decoded_outputs(msgs.push(m)) == decoded_outputs(msgs) + message_outputs(m),
{
    assert(msgs.push(m).drop_last() =~= msgs);
    assert(msgs.push(m).last() == m);
}

/// The decision core of the ingestion loop.
pub struct Collector {
    phase: Phase,
    records: Vec<SensorReading>,
}

impl View for Collector {
    type V = CollectorView;

    closed spec fn view(&self) -> CollectorView {
        CollectorView { phase: self.phase, records: self.records@ }
    }
}

impl Collector {
    /// A fresh collector: running, nothing recorded.
    pub fn new() -> (c: Collector)
        ensures
            c@.phase is Running,
            c@.records == Seq::<SensorReading>::empty(),
    {
        let c = Collector { phase: Phase::Running, records: Vec::new() };
        proof {
            assert(c@.records =~= Seq::<SensorReading>::empty());
        }
        c
    }

    /// Is the collector still accepting datagrams?
    pub fn is_running(&self) -> (r: bool)
        ensures
            r == (self@.phase is Running),
    {
        match self.phase {
            Phase::Running => true,
            Phase::Draining => false,
        }
    }

    /// One iteration's work on a received datagram: decode it and, on
    /// success, append the normalized reading to the record log and hand it
    /// back for the live publish. A datagram that does not decode changes
    /// nothing and is reported, so the loop can go on; either way the whole
    /// iteration's effect is pinned before the next datagram is looked at.
    pub fn on_datagram(&mut self, msg: &[u8]) -> (r: Result<SensorReading, DecodeError>)
        requires
            old(self)@.phase is Running,
        ensures
            final(self)@.phase is Running,
            match r {
                Ok(out) => spec_message(msg@) matches Some(raw) && out == spec_output(raw)
                    && out.wf() && final(self)@.records == old(self)@.records.push(out),
                Err(_) => spec_message(msg@) is None && final(self)@.records == old(
                    self,
                )@.records,
            },
    {
        match decode(msg) {
            Ok(out) => {
                self.records.push(out);
                Ok(out)
            },
            Err(e) => Err(e),
        }
    }

    /// Observe a shutdown request (or a durability incident escalated to
    /// one): stop accepting datagrams. Never loses a recorded reading, and
    /// observing the request again changes nothing.
    pub fn on_shutdown(&mut self)
        ensures
            final(self)@ == spec_on_shutdown(old(self)@),
            final(self)@.phase is Draining,
            final(self)@.records == old(self)@.records,
    {
        self.phase = Phase::Draining;
    }

    /// Finalize the recording: consume the collector and hand the complete
    /// record log, in receipt order, to the durable store for its one-time
    /// flush-and-close. With the collector gone, no further append can be
    /// expressed.
    pub fn finalize(self) -> (v: Vec<SensorReading>)
        requires
            self@.phase is Draining,
        ensures
            v@ == self@.records,
    {
        self.records
    }

    /// Feed a whole batch of datagrams, in order, as the ingestion loop
    /// would. The record log grows by exactly the decodable messages'
    /// readings, in receipt order; the count of accepted messages is
    /// returned.
    pub fn ingest_all(&mut self, msgs: &Vec<Vec<u8>>) -> (n: usize)
        requires
            old(self)@.phase is Running,
        ensures
            final(self)@.phase is Running,
            final(self)@.records == old(self)@.records + decoded_outputs(msgs.deep_view()),
            n == decoded_outputs(msgs.deep_view()).len(),
    {
        let ghost dv = msgs.deep_view();
        let ghost base = self@.records;
        let mut n: usize = 0;
        let mut idx: usize = 0;
        while idx < msgs.len()
            invariant
                idx <= msgs@.len(),
                self@.phase is Running,
                dv == msgs.deep_view(),
                self@.records == base + decoded_outputs(dv.take(idx as int)),
                n == decoded_outputs(dv.take(idx as int)).len(),
                n <= idx,
            decreases msgs@.len() - idx,
        {
            proof {
                assert(dv[idx as int] =~= msgs@[idx as int]@);
                assert(dv.take(idx as int + 1) =~= dv.take(idx as int).push(dv[idx as int]));
                lemma_decoded_outputs_push(dv.take(idx as int), dv[idx as int]);
            }
            match self.on_datagram(msgs[idx].as_slice()) {
                Ok(_) => {
                    n = n + 1;
                },
                Err(_) => {},
            }
            proof {
                assert(self@.records =~= base + decoded_outputs(dv.take(idx as int + 1)));
            }
            idx = idx + 1;
        }
        proof {
            assert(dv.take(idx as int) =~= dv);
        }
        n
    }
}

} // verus!
