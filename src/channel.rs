//! A message channel over a netstring stream.
//!
//! A [`Channel`] is a cloneable handle on a bounded queue of outbound
//! operations. Two pumps do the stream work: the [`ReaderPump`] moves
//! decoded frames from the stream to the inbound queue, the [`WriterPump`]
//! moves queued operations to the stream, strictly in queue order. Each pump
//! advances one step per call and says whether it is still running, so that
//! whoever owns the pumps decides where they run (a thread each, or in turn).
//!
//! The pumps hold the stream's bytes in memory: the reader pump holds the
//! bytes received and not yet decoded, the writer pump the bytes written and
//! not yet sent. Whoever runs a pump moves bytes between it and the real
//! stream, reports how that went, and shuts the stream down when a step
//! says so.
//!
//! A failure to send or flush written bytes is fatal to the writer pump: it
//! stops, a pending acknowledgement is dropped, and once the pump is dropped
//! the queue closes, so later calls on the channel fail with
//! `ChannelClosed`. Stream failures reach callers in that form.

use std::sync::atomic::{AtomicBool, Ordering};
use std::sync::mpsc::{Receiver, SyncSender};
use std::sync::Arc;
use vstd::prelude::*;

use vstd::string::StringSliceAdditionalSpecFns;
use vstd::utf8::encode_utf8;

use crate::codec::{decode_spec, frame_of};
use crate::transport::{write_frame_to_vec, NetstringReader, ReadNetstring};
use crate::codec::FrameError;
use crate::transport::TransportError;

verus! {

#[verifier::external_type_specification]
#[verifier::external_body]
#[verifier::reject_recursive_types(T)]
pub struct ExSyncSender<T>(SyncSender<T>);

#[verifier::external_type_specification]
#[verifier::external_body]
#[verifier::reject_recursive_types(T)]
pub struct ExReceiver<T>(Receiver<T>);

/// Relies on `std::sync::mpsc::sync_channel`: a queue that holds at most
/// `bound` items (a rendezvous when `bound` is zero).
pub assume_specification<T>[ std::sync::mpsc::sync_channel::<T> ](bound: usize) -> (SyncSender<
    T,
>, Receiver<T>);

/// Relies on `SyncSender::send`: it waits while the queue is full, and hands
/// the item back when the receiving side is gone.
#[verifier::external_body]
fn offer<T>(tx: &SyncSender<T>, item: T) -> (r: Result<(), T>)
    ensures
        r matches Err(back) ==> back == item,
{
    match tx.send(item) {
        Ok(()) => Ok(()),
        Err(e) => Err(e.0),
    }
}

/// Relies on `Receiver::recv`: it waits for the next item, and gives `None`
/// once the queue is empty and every sender is gone.
#[verifier::external_body]
fn take<T>(rx: &Receiver<T>) -> (r: Option<T>) {
    rx.recv().ok()
}

/// Relies on `SyncSender::clone`: another sender on the same queue.
#[verifier::external_body]
fn another_sender<T>(tx: &SyncSender<T>) -> (r: SyncSender<T>) {
    tx.clone()
}

/// Why an operation on a channel failed.
#[derive(Debug, PartialEq, Eq)]
pub enum ChannelError {
    /// The writer pump has stopped; carries the text that was not sent, if any.
    ChannelClosed(Option<String>),
}

impl ChannelError {
    /// A short description of the error.
    pub fn description(&self) -> (r: String)
        ensures
            r@ == closed_description(),
    {
        match self {
            ChannelError::ChannelClosed(_) => String::from_str("Channel is closed"),
        }
    }

    /// The error for an operation that could not be queued: it carries the
    /// operation's text.
    pub fn from_unsent(op: Op) -> (r: ChannelError)
        ensures
            r == ChannelError::ChannelClosed(op_text(op)),
    {
        match op {
            Op::Message(msg) => ChannelError::ChannelClosed(Some(msg)),
            Op::Last(msg, _) => ChannelError::ChannelClosed(Some(msg)),
            Op::Flush(_) => ChannelError::ChannelClosed(None),
        }
    }
}

/// The description of `ChannelClosed`.
pub open spec fn closed_description() -> Seq<char> {
    "Channel is closed"@
}

/// The receiving end of an acknowledgement.
pub struct AckWait {
    rx: Receiver<()>,
}

impl AckWait {
    /// Waits until the writer pump acknowledges. If it drops the request
    /// instead, the channel is closed.
    pub fn wait(self) -> (r: Result<(), ChannelError>)
        ensures
            r matches Err(e) ==> e == ChannelError::ChannelClosed(None),
    {
        match take(&self.rx) {
            Some(()) => Ok(()),
            None => Err(ChannelError::ChannelClosed(None)),
        }
    }
}

/// The sending end of an acknowledgement. Signalling is best-effort: when
/// the waiter has gone, the signal is dropped.
pub struct Ack {
    tx: SyncSender<()>,
}

impl Ack {
    pub fn signal(self) {
        let _ = offer(&self.tx, ());
    }
}

/// An operation for the writer pump.
pub enum Op {
    /// Flush the stream, then acknowledge.
    Flush(Ack),
    /// Write one frame.
    Message(String),
    /// Ask the reader to stop, write and flush one frame, acknowledge, and stop.
    Last(String, Ack),
}

/// The text that an operation carries.
pub open spec fn op_text(op: Op) -> Option<String> {
    match op {
        Op::Message(msg) => Some(msg),
        Op::Last(msg, _) => Some(msg),
        Op::Flush(_) => None,
    }
}

/// A pair of acknowledgement ends on a queue of one.
fn ack_pair() -> (r: (Ack, AckWait)) {
    let (tx, rx) = std::sync::mpsc::sync_channel(1);
    (Ack { tx }, AckWait { rx })
}

/// The operation that writes `msg`.
pub fn message_op(msg: &str) -> (r: Op)
    ensures
        r matches Op::Message(m) && m@ == msg@,
{
    Op::Message(msg.to_owned())
}

/// The operation that flushes and then signals `ack`.
pub fn flush_op(ack: Ack) -> (r: Op)
    ensures
        r == Op::Flush(ack),
{
    Op::Flush(ack)
}

/// The operation that ends the channel with `msg`, then signals `ack`.
pub fn last_op(msg: &str, ack: Ack) -> (r: Op)
    ensures
        r matches Op::Last(m, a) && m@ == msg@ && a == ack,
{
    Op::Last(msg.to_owned(), ack)
}

/// A handle on a channel: it queues outbound operations for the writer pump.
pub struct Channel {
    outgoing: SyncSender<Op>,
    stop: Arc<AtomicBool>,
}

impl Clone for Channel {
    fn clone(&self) -> Self {
        Channel { outgoing: another_sender(&self.outgoing), stop: Arc::clone(&self.stop) }
    }
}

/// What the reader pump does with each decoded text: gives the value to
/// queue inbound, or `None` to drop the text.
pub trait TextMapping<U> {
    /// Whether `apply` may be called on every text.
    spec fn accepts_every_text(&self) -> bool;

    /// Whether the mapping may give `out` for `text`.
    spec fn maps_to(&self, text: Seq<char>, out: Option<U>) -> bool;

    fn apply(&self, text: String) -> (r: Option<U>)
        requires
            self.accepts_every_text(),
        ensures
            self.maps_to(text@, r),
    ;
}

/// The mapping that queues every text unchanged.
pub struct KeepText;

impl TextMapping<String> for KeepText {
    open spec fn accepts_every_text(&self) -> bool {
        true
    }

    open spec fn maps_to(&self, text: Seq<char>, out: Option<String>) -> bool {
        out matches Some(s) && s@ == text
    }

    fn apply(&self, text: String) -> (r: Option<String>) {
        Some(text)
    }
}

/// A mapping given by a function that accepts every text.
pub struct MapWith<F> {
    f: F,
}

impl<F> MapWith<F> {
    /// The mapping that applies `f`.
    pub fn new(f: F) -> (r: MapWith<F>)
        ensures
            r.function() == f,
    {
        MapWith { f }
    }

    /// The function the mapping applies.
    pub closed spec fn function(&self) -> F {
        self.f
    }
}

impl<U, F: Fn(String) -> Option<U>> TextMapping<U> for MapWith<F> {
    open spec fn accepts_every_text(&self) -> bool {
        forall|s: String| self.function().requires((s,))
    }

    open spec fn maps_to(&self, text: Seq<char>, out: Option<U>) -> bool {
        exists|s: String| s@ == text && self.function().ensures((s,), out)
    }

    fn apply(&self, text: String) -> (r: Option<U>) {
        proof {
            assert(self.function().requires((text,)));
        }
        let ghost t = text;
        let r = (self.f)(text);
        proof {
            assert(t@ == t@ && self.function().ensures((t,), r));
        }
        r
    }
}

impl Channel {
    /// Builds a channel over a stream's read and write halves: a bounded
    /// outbound queue of `outgoing_capacity` operations, a stop signal that
    /// is not set, and the two pumps, both running, holding `reader` and
    /// `writer`. Each decoded text goes through `f`; what it gives is queued
    /// on `incoming`, and a `None` drops the text. Nothing runs until the
    /// pumps are stepped.
    pub fn map<F: Fn(String) -> Option<U>, U>(
        reader: NetstringReader,
        writer: Vec<u8>,
        incoming: SyncSender<U>,
        outgoing_capacity: usize,
        f: F,
    ) -> (r: (Channel, ReaderPump<MapWith<F>, U>, WriterPump))
        requires
            forall|s: String| f.requires((s,)),
        ensures
            r.1.fresh(reader),
            r.1.mapping().function() == f,
            r.1.maps_every_text(),
            r.2.fresh(writer),
    {
        Channel::with_mapping(reader, writer, incoming, outgoing_capacity, MapWith::new(f))
    }

    /// Builds a channel whose reader pump passes each text through `mapping`.
    pub fn with_mapping<M: TextMapping<U>, U>(
        reader: NetstringReader,
        writer: Vec<u8>,
        incoming: SyncSender<U>,
        outgoing_capacity: usize,
        mapping: M,
    ) -> (r: (Channel, ReaderPump<M, U>, WriterPump))
        ensures
            r.1.fresh(reader),
            r.1.mapping() == mapping,
            r.2.fresh(writer),
    {
        let (out_tx, out_rx) = std::sync::mpsc::sync_channel(outgoing_capacity);
        let stop = Arc::new(AtomicBool::new(false));
        let reader_pump = ReaderPump {
            source: reader,
            incoming,
            stop: Arc::clone(&stop),
            map: mapping,
            running: true,
            offered: Ghost(Seq::empty()),
        };
        let ghost written = writer@;
        let writer_pump = WriterPump {
            sink: writer,
            ops: out_rx,
            stop: Arc::clone(&stop),
            running: true,
            awaiting: None,
            finishing: false,
            total: Ghost(written),
            acked: Ghost(0),
            stop_mark: Ghost(None),
        };
        (Channel { outgoing: out_tx, stop }, reader_pump, writer_pump)
    }

    /// Builds a channel whose reader pump queues every decoded text on
    /// `incoming` unchanged; see [`Channel::map`].
    pub fn new(
        reader: NetstringReader,
        writer: Vec<u8>,
        incoming: SyncSender<String>,
        outgoing_capacity: usize,
    ) -> (r: (Channel, ReaderPump<KeepText, String>, WriterPump))
        ensures
            r.1.fresh(reader),
            r.1.maps_every_text(),
            r.2.fresh(writer),
    {
        Channel::with_mapping(reader, writer, incoming, outgoing_capacity, KeepText)
    }

    /// Queues `msg` for the writer pump, waiting while the queue is full.
    /// Fails, handing `msg` back, when the writer pump has stopped.
    pub fn send(&self, msg: &str) -> (r: Result<(), ChannelError>)
        ensures
            r matches Err(e) ==> e matches ChannelError::ChannelClosed(Some(back)) && back@ == msg@,
    {
        let op = message_op(msg);
        match offer(&self.outgoing, op) {
            Ok(()) => Ok(()),
            Err(op) => Err(ChannelError::from_unsent(op)),
        }
    }

    /// Queues a flush for the writer pump, without waiting for it: the
    /// result waits for the acknowledgement, which comes once everything
    /// queued before the flush has been written and flushed.
    pub fn begin_flush(&self) -> (r: Result<AckWait, ChannelError>)
        ensures
            r matches Err(e) ==> e == ChannelError::ChannelClosed(None),
    {
        let (ack, wait) = ack_pair();
        let op = flush_op(ack);
        match offer(&self.outgoing, op) {
            Ok(()) => Ok(wait),
            Err(op) => Err(ChannelError::from_unsent(op)),
        }
    }

    /// Flushes everything queued so far, and waits until the writer pump
    /// acknowledges.
    pub fn flush(&self) -> (r: Result<(), ChannelError>)
        ensures
            r matches Err(e) ==> e == ChannelError::ChannelClosed(None),
    {
        match self.begin_flush() {
            Ok(wait) => wait.wait(),
            Err(e) => Err(e),
        }
    }

    /// Queues `msg` as the last message, without waiting: the result waits
    /// for the acknowledgement, which comes once the message has been
    /// written and flushed. The handle is used up.
    pub fn begin_send_last(self, msg: &str) -> (r: Result<AckWait, ChannelError>)
        ensures
            r matches Err(e) ==> e matches ChannelError::ChannelClosed(Some(back)) && back@ == msg@,
    {
        let (ack, wait) = ack_pair();
        let op = last_op(msg, ack);
        match offer(&self.outgoing, op) {
            Ok(()) => Ok(wait),
            Err(op) => Err(ChannelError::from_unsent(op)),
        }
    }

    /// Sends `msg` as the last message and waits until it has been written
    /// and flushed. The writer pump stops after it, and asks the reader pump
    /// to stop. Responses that arrive later may be dropped: drain them first.
    pub fn send_last(self, msg: &str) -> (r: Result<(), ChannelError>)
        ensures
            r matches Err(e) ==> e matches ChannelError::ChannelClosed(m) && (m matches Some(
                back,
            ) ==> back@ == msg@),
    {
        match self.begin_send_last(msg) {
            Ok(wait) => wait.wait(),
            Err(e) => Err(e),
        }
    }
}

/// What one step of the reader pump did.
#[derive(Clone, Copy, Debug, PartialEq, Eq, Structural)]
pub enum ReaderStep {
    /// A frame was decoded and queued inbound.
    Delivered,
    /// A frame was decoded and the mapping dropped it.
    Skipped,
    /// More bytes are needed before the next frame can be decided.
    NeedBytes,
    /// The writer asked the reader to stop.
    StopRequested,
    /// A frame was decoded but nobody listens inbound any more.
    ListenerGone,
    /// Decoding failed: the stream ended or broke.
    Ended(FrameError),
}

impl ReaderStep {
    pub open spec fn keeps_running_spec(self) -> bool {
        self is Delivered || self is Skipped || self is NeedBytes
    }

    pub open spec fn shuts_down_spec(self) -> bool {
        self is ListenerGone || self is Ended
    }

    /// Whether the reader pump goes on after this step.
    pub fn keeps_running(&self) -> (r: bool)
        ensures
            r == self.keeps_running_spec(),
    {
        match self {
            ReaderStep::Delivered | ReaderStep::Skipped | ReaderStep::NeedBytes => true,
            _ => false,
        }
    }

    /// Whether the stream must now be shut down, so that a writer blocked on
    /// it returns.
    pub fn shuts_down_stream(&self) -> (r: bool)
        ensures
            r == self.shuts_down_spec(),
    {
        match self {
            ReaderStep::ListenerGone | ReaderStep::Ended(_) => true,
            _ => false,
        }
    }
}

/// What one step of the writer pump did.
#[derive(Clone, Copy, Debug, PartialEq, Eq, Structural)]
pub enum WriterStep {
    /// A message's frame was written.
    Wrote,
    /// A flush was taken from the queue; the written bytes must be sent and
    /// flushed, and the outcome reported.
    FlushRequested,
    /// The last message's frame was written; the written bytes must be sent
    /// and flushed, and the outcome reported.
    FinishRequested,
    /// Written bytes were sent.
    Sent,
    /// A flush went through and was acknowledged.
    Flushed,
    /// The last message went through and was acknowledged.
    Finished,
    /// Sending or flushing failed; the pump stopped.
    StreamFailed,
    /// Every channel handle is gone; the pump stopped.
    Closed,
}

impl WriterStep {
    pub open spec fn keeps_running_spec(self) -> bool {
        self is Wrote || self is FlushRequested || self is FinishRequested || self is Sent
            || self is Flushed
    }

    pub open spec fn shuts_down_spec(self) -> bool {
        self is Finished || self is StreamFailed || self is Closed
    }

    /// Whether the writer pump goes on after this step.
    pub fn keeps_running(&self) -> (r: bool)
        ensures
            r == self.keeps_running_spec(),
    {
        match self {
            WriterStep::Wrote | WriterStep::FlushRequested | WriterStep::FinishRequested
            | WriterStep::Sent | WriterStep::Flushed => true,
            _ => false,
        }
    }

    /// Whether the stream must now be shut down, so that a reader blocked
    /// on it returns.
    pub fn shuts_down_stream(&self) -> (r: bool)
        ensures
            r == self.shuts_down_spec(),
    {
        match self {
            WriterStep::Finished | WriterStep::StreamFailed | WriterStep::Closed => true,
            _ => false,
        }
    }
}

/// Moves frames from the received bytes to the inbound queue, passing each
/// through a mapping that may drop it.
#[verifier::reject_recursive_types(U)]
pub struct ReaderPump<M, U> {
    source: NetstringReader,
    incoming: SyncSender<U>,
    stop: Arc<AtomicBool>,
    map: M,
    running: bool,
    offered: Ghost<Seq<U>>,
}

impl<M: TextMapping<U>, U> ReaderPump<M, U> {
    /// Whether the pump still runs.
    pub closed spec fn is_running(&self) -> bool {
        self.running
    }

    /// The bytes received and not yet decoded.
    pub closed spec fn pending(&self) -> Seq<u8> {
        self.source.pending_bytes()
    }

    /// Whether the stream has ended.
    pub closed spec fn ended(&self) -> bool {
        self.source.has_ended()
    }

    /// The values handed to the inbound queue so far, in order.
    pub closed spec fn offered(&self) -> Seq<U> {
        self.offered@
    }

    /// The pump's mapping.
    pub closed spec fn mapping(&self) -> M {
        self.map
    }

    /// Whether the pump's mapping may be applied to every text.
    pub open spec fn maps_every_text(&self) -> bool {
        self.mapping().accepts_every_text()
    }

    /// A running pump on `reader`'s bytes that has handed nothing on yet.
    pub open spec fn fresh(&self, reader: NetstringReader) -> bool {
        &&& self.is_running()
        &&& self.pending() == reader.pending_bytes()
        &&& self.ended() == reader.has_ended()
        &&& self.offered() == Seq::<U>::empty()
    }

    /// The pump state that changes with stepping, against an earlier one:
    /// the same mapping.
    pub open spec fn same_mapping(&self, other: &Self) -> bool {
        self.mapping() == other.mapping()
    }

    /// Whether the pump still runs.
    pub fn running(&self) -> (r: bool)
        ensures
            r == self.is_running(),
    {
        self.running
    }

    /// Hands bytes received from the stream to the pump.
    pub fn feed(&mut self, chunk: &[u8])
        ensures
            final(self).pending() == old(self).pending() + chunk@,
            final(self).ended() == old(self).ended(),
            final(self).is_running() == old(self).is_running(),
            final(self).offered() == old(self).offered(),
            final(self).same_mapping(old(self)),
    {
        self.source.feed(chunk);
    }

    /// Records that the stream has ended.
    pub fn end_of_stream(&mut self)
        ensures
            final(self).pending() == old(self).pending(),
            final(self).ended(),
            final(self).is_running() == old(self).is_running(),
            final(self).offered() == old(self).offered(),
            final(self).same_mapping(old(self)),
    {
        self.source.finish();
    }

    /// Given whether the writer has asked the reader to stop, decodes the
    /// next frame from the received bytes and forwards it. The pump stops
    /// when the writer asked it to, when the stream ends or
    /// breaks, and when nobody listens inbound; in the last two cases the
    /// stream must be shut down. When more bytes are needed, nothing changes.
    pub fn step_with(&mut self, stop_requested: bool) -> (r: ReaderStep)
        requires
            old(self).is_running(),
            old(self).maps_every_text(),
        ensures
            final(self).same_mapping(old(self)),
            final(self).is_running() == r.keeps_running_spec(),
            final(self).ended() == old(self).ended(),
            stop_requested <==> r is StopRequested,
            r is StopRequested ==> final(self).pending() == old(self).pending() && final(self).offered()
                == old(self).offered(),
            !(r is StopRequested) ==> match decode_spec(old(self).pending(), old(self).ended()) {
                Ok((text, used)) => {
                    &&& final(self).pending() == old(self).pending().subrange(
                        used as int,
                        old(self).pending().len() as int,
                    )
                    &&& forwards(old(self).mapping(), text, r, old(self).offered(), final(self).offered())
                },
                Err(e) => {
                    &&& final(self).pending() == old(self).pending()
                    &&& final(self).offered() == old(self).offered()
                    &&& (e == FrameError::Incomplete ==> r is NeedBytes)
                    &&& (e != FrameError::Incomplete ==> r == ReaderStep::Ended(e))
                },
            },
    {
        if stop_requested {
            self.running = false;
            return ReaderStep::StopRequested;
        }
        let read = self.source.read_netstring();
        match read {
            Err(FrameError::Incomplete) => ReaderStep::NeedBytes,
            _ => self.handle_read(read),
        }
    }

    /// Reads the stop signal, then takes one step as [`ReaderPump::step_with`]
    /// does with it.
    pub fn step(&mut self) -> (r: ReaderStep)
        requires
            old(self).is_running(),
            old(self).maps_every_text(),
        ensures
            final(self).same_mapping(old(self)),
            final(self).is_running() == r.keeps_running_spec(),
            final(self).ended() == old(self).ended(),
            r is StopRequested ==> final(self).pending() == old(self).pending() && final(self).offered()
                == old(self).offered(),
            !(r is StopRequested) ==> match decode_spec(old(self).pending(), old(self).ended()) {
                Ok((text, used)) => {
                    &&& final(self).pending() == old(self).pending().subrange(
                        used as int,
                        old(self).pending().len() as int,
                    )
                    &&& forwards(old(self).mapping(), text, r, old(self).offered(), final(self).offered())
                },
                Err(e) => {
                    &&& final(self).pending() == old(self).pending()
                    &&& final(self).offered() == old(self).offered()
                    &&& (e == FrameError::Incomplete ==> r is NeedBytes)
                    &&& (e != FrameError::Incomplete ==> r == ReaderStep::Ended(e))
                },
            },
    {
        let stop_requested = self.stop.load(Ordering::Relaxed);
        self.step_with(stop_requested)
    }

    /// Acts on the outcome of one read: a text goes through the mapping and,
    /// unless dropped, to the inbound queue; an error ends the pump.
    pub fn handle_read(&mut self, read: Result<String, FrameError>) -> (r: ReaderStep)
        requires
            old(self).is_running(),
            old(self).maps_every_text(),
        ensures
            final(self).same_mapping(old(self)),
            final(self).is_running() == r.keeps_running_spec(),
            final(self).pending() == old(self).pending(),
            final(self).ended() == old(self).ended(),
            match read {
                Ok(msg) => forwards(old(self).mapping(), msg@, r, old(self).offered(), final(self).offered()),
                Err(e) => r == ReaderStep::Ended(e) && final(self).offered() == old(self).offered(),
            },
    {
        match read {
            Ok(msg) => {
                let ghost text = msg@;
                let out = self.map.apply(msg);
                match out {
                    Some(x) => {
                        let ghost value = x;
                        self.offered = Ghost(self.offered@.push(x));
                        let sent = offer(&self.incoming, x);
                        let r = self.after_offer(sent);
                        proof {
                            assert(old(self).mapping().maps_to(text, Some(value)));
                        }
                        r
                    },
                    None => {
                        proof {
                            assert(old(self).mapping().maps_to(text, None::<U>));
                        }
                        ReaderStep::Skipped
                    },
                }
            },
            Err(e) => {
                self.running = false;
                ReaderStep::Ended(e)
            },
        }
    }

    /// Acts on the outcome of handing a value to the inbound queue: the pump
    /// goes on when it was taken, and stops when nobody listens.
    pub fn after_offer(&mut self, sent: Result<(), U>) -> (r: ReaderStep)
        requires
            old(self).is_running(),
        ensures
            final(self).same_mapping(old(self)),
            final(self).pending() == old(self).pending(),
            final(self).ended() == old(self).ended(),
            final(self).offered() == old(self).offered(),
            sent is Ok <==> r is Delivered,
            sent is Err <==> r is ListenerGone,
            final(self).is_running() <==> r is Delivered,
    {
        match sent {
            Ok(()) => ReaderStep::Delivered,
            Err(_) => {
                self.running = false;
                ReaderStep::ListenerGone
            },
        }
    }
}

/// What the reader pump does with a decoded `text`, given the values it had
/// handed on before (`before`) and after (`after`): the mapping gives some
/// `out`; a `None` is skipped, and a value is handed to the inbound queue,
/// which took it (`Delivered`) or had nobody listening (`ListenerGone`).
pub open spec fn forwards<M: TextMapping<U>, U>(
    mapping: M,
    text: Seq<char>,
    r: ReaderStep,
    before: Seq<U>,
    after: Seq<U>,
) -> bool {
    exists|out: Option<U>|
        #[trigger] mapping.maps_to(text, out) && match out {
            None => r is Skipped && after == before,
            Some(x) => after == before.push(x) && (r is Delivered || r is ListenerGone),
        }
}

/// Moves queued operations to the written bytes, in queue order, and
/// acknowledges flushes once the bytes have gone out.
pub struct WriterPump {
    sink: Vec<u8>,
    ops: Receiver<Op>,
    stop: Arc<AtomicBool>,
    running: bool,
    awaiting: Option<Ack>,
    finishing: bool,
    total: Ghost<Seq<u8>>,
    acked: Ghost<nat>,
    stop_mark: Ghost<Option<nat>>,
}

impl WriterPump {
    /// Whether the pump still runs.
    pub closed spec fn is_running(&self) -> bool {
        self.running
    }

    /// The bytes written and not yet taken out to be sent.
    pub closed spec fn output(&self) -> Seq<u8> {
        self.sink@
    }

    /// Whether the pump waits for the outcome of sending and flushing the
    /// written bytes before it takes the next operation.
    pub closed spec fn is_awaiting(&self) -> bool {
        self.awaiting is Some
    }

    /// Whether the awaited flush is that of the last message.
    pub closed spec fn is_finishing(&self) -> bool {
        self.finishing
    }

    /// Every byte written so far, including those taken out.
    pub closed spec fn total(&self) -> Seq<u8> {
        self.total@
    }

    /// How many acknowledgements the pump has signalled.
    pub closed spec fn acked(&self) -> nat {
        self.acked@
    }

    /// When the pump raised the stop signal for the reader: the number of
    /// bytes written by then, or `None` while it has not.
    pub closed spec fn stop_mark(&self) -> Option<nat> {
        self.stop_mark@
    }

    /// A running pump, waiting for nothing, that holds `writer`'s bytes, has
    /// acknowledged nothing and has not raised the stop signal.
    pub open spec fn fresh(&self, writer: Vec<u8>) -> bool {
        &&& self.is_running()
        &&& !self.is_awaiting()
        &&& !self.is_finishing()
        &&& self.output() == writer@
        &&& self.total() == writer@
        &&& self.acked() == 0
        &&& self.stop_mark() is None
    }

    /// The same acknowledgements, stop signal and bytes written as `other`.
    pub open spec fn same_record(&self, other: &Self) -> bool {
        &&& self.total() == other.total()
        &&& self.acked() == other.acked()
        &&& self.stop_mark() == other.stop_mark()
    }

    /// Whether the pump still runs.
    pub fn running(&self) -> (r: bool)
        ensures
            r == self.is_running(),
    {
        self.running
    }

    /// Whether the pump waits for a report on sending and flushing.
    pub fn awaiting(&self) -> (r: bool)
        ensures
            r == self.is_awaiting(),
    {
        self.awaiting.is_some()
    }

    /// The bytes written and not yet taken out.
    pub fn writer(&self) -> (r: &Vec<u8>)
        ensures
            r@ == self.output(),
    {
        &self.sink
    }

    /// Takes out the written bytes, to be sent on the stream.
    pub fn take_output(&mut self) -> (r: Vec<u8>)
        ensures
            r@ == old(self).output(),
            final(self).output() == Seq::<u8>::empty(),
            final(self).is_running() == old(self).is_running(),
            final(self).is_awaiting() == old(self).is_awaiting(),
            final(self).is_finishing() == old(self).is_finishing(),
            final(self).same_record(old(self)),
    {
        let out = self.sink.split_off(0);
        proof {
            assert(out@ =~= old(self).output());
        }
        out
    }

    /// Takes the next operation from the queue (waiting for one) and carries
    /// it out.
    pub fn step(&mut self) -> (r: WriterStep)
        requires
            old(self).is_running(),
            !old(self).is_awaiting(),
            !old(self).is_finishing(),
        ensures
            final(self).is_running() == r.keeps_running_spec(),
            final(self).is_awaiting() == (r is FlushRequested || r is FinishRequested),
            final(self).is_finishing() == r is FinishRequested,
            r is Wrote || r is FlushRequested || r is FinishRequested || r is Closed,
            r is FlushRequested || r is Closed ==> final(self).output() == old(self).output()
                && final(self).same_record(old(self)),
            r is Wrote ==> final(self).acked() == old(self).acked() && final(self).stop_mark()
                == old(self).stop_mark() && exists|t: Seq<u8>|
                {
                    &&& final(self).output() == old(self).output() + frame_of(t)
                    &&& final(self).total() == old(self).total() + frame_of(t)
                },
            r is FinishRequested ==> final(self).acked() == old(self).acked() && final(self).stop_mark()
                == Some(old(self).total().len()) && exists|t: Seq<u8>|
                {
                    &&& final(self).output() == old(self).output() + frame_of(t)
                    &&& final(self).total() == old(self).total() + frame_of(t)
                },
    {
        let op = take(&self.ops);
        self.carry_out(op)
    }

    /// Carries out one operation from the queue: a message's frame is
    /// appended to the written bytes; a flush, or the last message after its
    /// frame is appended, waits for the written bytes to go out. The last
    /// message also asks the reader pump to stop. `None` (the queue has
    /// closed) stops the pump.
    pub fn carry_out(&mut self, op: Option<Op>) -> (r: WriterStep)
        requires
            old(self).is_running(),
            !old(self).is_awaiting(),
            !old(self).is_finishing(),
        ensures
            final(self).is_running() == r.keeps_running_spec(),
            final(self).is_awaiting() == (r is FlushRequested || r is FinishRequested),
            final(self).is_finishing() == r is FinishRequested,
            final(self).acked() == old(self).acked(),
            match op {
                Some(Op::Message(m)) => {
                    &&& r is Wrote
                    &&& final(self).output() == old(self).output() + frame_of(encode_utf8(m@))
                    &&& final(self).total() == old(self).total() + frame_of(encode_utf8(m@))
                    &&& final(self).stop_mark() == old(self).stop_mark()
                },
                Some(Op::Flush(_)) => r is FlushRequested && final(self).output() == old(self).output()
                    && final(self).same_record(old(self)),
                Some(Op::Last(m, _)) => {
                    &&& r is FinishRequested
                    &&& final(self).stop_mark() == Some(old(self).total().len())
                    &&& final(self).output() == old(self).output() + frame_of(encode_utf8(m@))
                    &&& final(self).total() == old(self).total() + frame_of(encode_utf8(m@))
                },
                None => {
                    &&& r is Closed
                    &&& final(self).output() == old(self).output()
                    &&& final(self).same_record(old(self))
                },
            },
    {
        match op {
            Some(Op::Message(msg)) => {
                let _ = write_frame_to_vec(&mut self.sink, msg.as_str());
                self.total = Ghost(self.total@ + frame_of(encode_utf8(msg@)));
                WriterStep::Wrote
            },
            Some(Op::Flush(ack)) => {
                self.awaiting = Some(ack);
                WriterStep::FlushRequested
            },
            Some(Op::Last(msg, ack)) => {
                self.stop.store(true, Ordering::Relaxed);
                self.stop_mark = Ghost(Some(self.total@.len()));
                let _ = write_frame_to_vec(&mut self.sink, msg.as_str());
                self.total = Ghost(self.total@ + frame_of(encode_utf8(msg@)));
                self.awaiting = Some(ack);
                self.finishing = true;
                WriterStep::FinishRequested
            },
            None => {
                self.running = false;
                WriterStep::Closed
            },
        }
    }

    /// Acts on the report of sending the written bytes (and, when awaited,
    /// flushing the stream). A failure stops the pump and drops any pending
    /// acknowledgement unsignalled. Otherwise an awaited flush is
    /// acknowledged, and after the last message the pump stops.
    pub fn sent(&mut self, result: Result<(), TransportError>) -> (r: WriterStep)
        requires
            old(self).is_running(),
            old(self).is_finishing() ==> old(self).is_awaiting(),
        ensures
            final(self).output() == old(self).output(),
            final(self).is_running() == r.keeps_running_spec(),
            !final(self).is_awaiting(),
            !final(self).is_finishing(),
            result is Err <==> r is StreamFailed,
            result is Ok ==> (old(self).is_finishing() <==> r is Finished),
            result is Ok ==> (old(self).is_awaiting() && !old(self).is_finishing() <==> r is Flushed),
            result is Ok ==> (!old(self).is_awaiting() <==> r is Sent),
            final(self).acked() == old(self).acked() + if result is Ok && old(self).is_awaiting() {
                1nat
            } else {
                0nat
            },
            final(self).total() == old(self).total(),
            final(self).stop_mark() == old(self).stop_mark(),
    {
        let awaited = self.awaiting.take();
        let finishing = self.finishing;
        self.finishing = false;
        match result {
            Err(_) => {
                self.running = false;
                WriterStep::StreamFailed
            },
            Ok(()) => match awaited {
                Some(ack) => {
                    ack.signal();
                    self.acked = Ghost(self.acked@ + 1);
                    if finishing {
                        self.running = false;
                        WriterStep::Finished
                    } else {
                        WriterStep::Flushed
                    }
                },
                None => WriterStep::Sent,
            },
        }
    }
}

} // verus!
