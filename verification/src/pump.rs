//! The pump: what each tick asks of the installed channels.
//!
//! A send cycle, spaced out by the send timer, hands every live channel the
//! payload of the current snapshot. A receive cycle, on every tick, reads
//! each live channel until nothing more is there. The driver makes the
//! writes and reads; the functions here say what to write, what each outcome
//! is reported as, and whether to read on.

use crate::channel::{
    receive_one, receive_result, send, send_result, Delivery, Message, TransportError,
};
use crate::client::Client;
use crate::registry::{live_ids, Registry};
use crate::report::LogEntry;
use crate::timer::SendTimer;
use crate::transform::{encoding, serialize, TransformRecord};
use vstd::prelude::*;

verus! {

/// A payload and the live slot whose channel is to send it.
#[derive(Debug, PartialEq, Eq)]
pub struct Outbound {
    pub slot: u64,
    pub payload: Vec<u8>,
}

impl DeepView for Outbound {
    type V = (u64, Seq<u8>);

    open spec fn deep_view(&self) -> (u64, Seq<u8>) {
        (self.slot, self.payload@)
    }
}

/// What follows from one read of a receive cycle.
#[derive(Debug, PartialEq, Eq)]
pub struct ReceiveStep {
    /// What to log, if anything.
    pub entry: Option<LogEntry>,
    /// Whether to read the channel once more in this tick.
    pub again: bool,
}

/// What the send cycle reports of one write.
pub open spec fn send_report(slot: u64, raw: Result<(), TransportError>) -> Option<LogEntry> {
    match send_result(raw) {
        Ok(Delivery::Sent) => Some(LogEntry::Sent { slot }),
        Ok(Delivery::Deferred) => None,
        Err(send_error) => Some(LogEntry::SendFailed { slot, send_error }),
    }
}

/// What the receive cycle makes of one read.
pub open spec fn receive_step(slot: u64, raw: Result<Message, TransportError>) -> ReceiveStep {
    match receive_result(raw) {
        Ok(Some(message)) => ReceiveStep {
            entry: Some(LogEntry::Received { slot, message }),
            again: true,
        },
        Ok(None) => ReceiveStep { entry: None, again: false },
        Err(recv_error) => ReceiveStep {
            entry: Some(LogEntry::ReceiveFailed { slot, recv_error }),
            again: false,
        },
    }
}

/// A payload, addressed to a slot.
pub open spec fn addressed(payload: Seq<u8>) -> spec_fn(u64) -> (u64, Seq<u8>) {
    |slot: u64| (slot, payload)
}

/// The report of a payload that came in on `slot`.
pub open spec fn received_payload(slot: u64) -> spec_fn(Vec<u8>) -> LogEntry {
    |data: Vec<u8>| LogEntry::Received { slot, message: Message::Binary(data) }
}

/// What a non-blocking read gives on a transport that holds `inbound`, the
/// oldest message first: the oldest message, or `WouldBlock` where it holds
/// none.
pub open spec fn next_read(inbound: Seq<Message>) -> Result<Message, TransportError> {
    if inbound.len() > 0 {
        Ok(inbound[0])
    } else {
        Err(TransportError::WouldBlock)
    }
}

/// What a receive cycle logs on a transport that holds `inbound`: the
/// entries of the steps that it takes, reading on for as long as
/// `receive_step` says so.
pub open spec fn cycle_log(slot: u64, inbound: Seq<Message>) -> Seq<LogEntry>
    decreases inbound.len(),
{
    let step = receive_step(slot, next_read(inbound));
    let logged = match step.entry {
        Some(entry) => seq![entry],
        None => Seq::empty(),
    };
    if step.again && inbound.len() > 0 {
        logged + cycle_log(slot, inbound.drop_first())
    } else {
        logged
    }
}

/// `LogEntry::Received` for `slot`, as a function value.
pub open spec fn received_on(slot: u64) -> spec_fn(Message) -> LogEntry {
    |message: Message| LogEntry::Received { slot, message }
}

/// A receive cycle drains the transport: with `inbound` held when the cycle
/// starts, it logs one entry for each message, in their order, and reads on
/// until none is left; on a transport that holds nothing it logs nothing.
pub proof fn lemma_cycle_drains(slot: u64, inbound: Seq<Message>)
    ensures
        cycle_log(slot, inbound) == inbound.map_values(received_on(slot)),
        cycle_log(slot, Seq::empty()) == Seq::<LogEntry>::empty(),
    decreases inbound.len(),
{
    if inbound.len() > 0 {
        lemma_cycle_drains(slot, inbound.drop_first());
        assert(cycle_log(slot, inbound) =~= inbound.map_values(received_on(slot)));
    } else {
        assert(cycle_log(slot, inbound) =~= inbound.map_values(received_on(slot)));
    }
}

/// The send cycle of one tick. Advances the timer by `delta`. Where the
/// timer does not fire, nothing is to be sent and `None` is returned. Where
/// it fires, every live channel gets the payload of `snapshot`, in the order
/// of the slots.
pub fn send_cycle<C>(
    timer: &mut SendTimer,
    delta: u64,
    registry: &Registry<C>,
    snapshot: &Vec<TransformRecord>,
) -> (plan: Option<Vec<Outbound>>)
    ensures
        final(timer)@ == old(timer)@.tick(delta as nat),
        plan is Some <==> old(timer)@.fires(delta as nat),
        plan matches Some(outbound) ==> outbound.deep_view() == registry@.slots.filter_map(
            live_ids(),
        ).map_values(addressed(encoding(snapshot@))),
{
    if !timer.tick(delta) {
        return None;
    }
    let slots = registry.live_slots();
    let mut outbound: Vec<Outbound> = Vec::new();
    let mut i: usize = 0;
    while i < slots.len()
        invariant
            i <= slots.len(),
            outbound.len() == i,
            forall|k: int|
                0 <= k < i ==> (#[trigger] outbound[k]).deep_view() == (
                    slots[k],
                    encoding(snapshot@),
                ),
        decreases slots.len() - i,
    {
        let payload = serialize(snapshot);
        outbound.push(Outbound { slot: slots[i], payload });
        i = i + 1;
    }
    assert(outbound.deep_view() =~= slots@.map_values(addressed(encoding(snapshot@))));
    Some(outbound)
}

/// What to log after the channel of `slot` was asked to send and the
/// transport said `raw`: a success, a warning for a genuine failure, and
/// nothing where the write would have blocked.
pub fn after_send(slot: u64, raw: Result<(), TransportError>) -> (entry: Option<LogEntry>)
    ensures
        entry == send_report(slot, raw),
{
    match send(raw) {
        Ok(Delivery::Sent) => Some(LogEntry::Sent { slot }),
        Ok(Delivery::Deferred) => None,
        Err(send_error) => Some(LogEntry::SendFailed { slot, send_error }),
    }
}

/// What to do after the channel of `slot` was read and the transport said
/// `raw`. A message is logged and the channel read again; with nothing
/// there, the cycle is over for this channel; a genuine failure is logged as
/// a warning and ends the cycle for this tick, and the channel stays
/// installed.
pub fn after_receive(slot: u64, raw: Result<Message, TransportError>) -> (step: ReceiveStep)
    ensures
        step == receive_step(slot, raw),
{
    match receive_one(raw) {
        Ok(Some(message)) => ReceiveStep {
            entry: Some(LogEntry::Received { slot, message }),
            again: true,
        },
        Ok(None) => ReceiveStep { entry: None, again: false },
        Err(recv_error) => ReceiveStep {
            entry: Some(LogEntry::ReceiveFailed { slot, recv_error }),
            again: false,
        },
    }
}

/// The receive cycle of one tick on a client: reads until the client would
/// block. Every payload that was queued before is logged, the oldest first,
/// and none is left, so that a second cycle right after logs nothing.
pub fn receive_cycle(slot: u64, client: &mut Client) -> (log: Vec<LogEntry>)
    ensures
        log@ == old(client)@.queue.map_values(received_payload(slot)),
        final(client)@.queue.len() == 0,
        final(client)@.url == old(client)@.url,
{
    let mut log: Vec<LogEntry> = Vec::new();
    let ghost queued = client@.queue;
    loop
        invariant
            queued == old(client)@.queue,
            client@.url == old(client)@.url,
            log@.len() <= queued.len(),
            client@.queue == queued.skip(log@.len() as int),
            log@ == queued.take(log@.len() as int).map_values(received_payload(slot)),
        ensures
            log@ == queued.map_values(received_payload(slot)),
            client@.queue.len() == 0,
        decreases client@.queue.len(),
    {
        let ghost done = log@.len() as int;
        let step = after_receive(slot, client.read());
        match step.entry {
            Some(entry) => {
                log.push(entry);
            },
            None => {},
        }
        if !step.again {
            assert(queued.take(done) =~= queued);
            break ;
        }
        proof {
            assert(client@.queue =~= queued.skip(done + 1));
            assert(log@ =~= queued.take(done + 1).map_values(received_payload(slot)));
        }
    }
    log
}

} // verus!
