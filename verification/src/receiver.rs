//! The reader's side of a connection: bytes in, routed messages out.
//!
//! The receiver owns the buffer of bytes read and the dispatcher.  Each
//! poll takes the first whole frame off the buffer, reads it as a message
//! and routes it, so messages are handled one at a time and in the order in
//! which they stand on the wire.
use crate::dispatcher::{
    distinct, is_waiting, route, route_all, waiter_of, without, Dispatcher, Routed, RoutedView,
};
use crate::framing::{
    frame, lemma_frame_round_trip, lemma_stream_push, parse_frame, stream, FrameDecoder,
    FrameError, Parsed,
};
use crate::message::{decode_payload, read_message, DecodeError, PayloadView, ShapeError};
use vstd::prelude::*;

verus! {

/// Why a transport cannot be read any further.
#[derive(Clone, Copy, Debug, PartialEq, Eq, Structural)]
pub enum TransportError {
    /// A header block that cannot be read.
    Framing(FrameError),
    /// A payload that is not JSON.
    Undecodable,
}

/// What one poll of the receiver found.
#[derive(Debug)]
pub enum Inbound<W> {
    /// No whole frame is buffered: more bytes are needed.
    NeedMore,
    /// A message, and what is to be done with it.
    Routed(Routed<W>),
    /// A payload that is JSON but no message: report it and go on.
    Violation(ShapeError),
    /// The stream is broken and the transport has to close.  The requests
    /// in flight are handed back, to be resolved with a closure failure.
    Fatal { error: TransportError, abandoned: Vec<(u64, W)> },
    /// The receiver has closed; nothing is read any more.
    Closed,
}

pub enum InboundView<W> {
    NeedMore,
    Routed(RoutedView<W>),
    Violation(ShapeError),
    Fatal { error: TransportError, abandoned: Seq<(u64, W)> },
    Closed,
}

impl<W> View for Inbound<W> {
    type V = InboundView<W>;

    open spec fn view(&self) -> InboundView<W> {
        match self {
            Inbound::NeedMore => InboundView::NeedMore,
            Inbound::Routed(routed) => InboundView::Routed(routed@),
            Inbound::Violation(e) => InboundView::Violation(*e),
            Inbound::Fatal { error, abandoned } => InboundView::Fatal {
                error: *error,
                abandoned: abandoned@,
            },
            Inbound::Closed => InboundView::Closed,
        }
    }
}

/// The receiver as the contracts see it.
pub struct ReceiverView<W> {
    /// The bytes read and not yet handed out as frames.
    pub buffer: Seq<u8>,
    /// The requests in flight, oldest first, each with its waiter.
    pub pending: Seq<(u64, W)>,
    pub closed: bool,
}

/// The numbers in flight are distinct, and nothing is in flight once the
/// receiver has closed.
pub open spec fn wf<W>(receiver: ReceiverView<W>) -> bool {
    distinct(receiver.pending) && (receiver.closed ==> receiver.pending.len() == 0)
}

/// The receiver after it has closed.
pub open spec fn shut<W>(receiver: ReceiverView<W>, buffer: Seq<u8>) -> ReceiverView<W> {
    ReceiverView { buffer, pending: Seq::empty(), closed: true }
}

/// One poll: what the receiver is afterwards, and what it found.
pub open spec fn step<W>(receiver: ReceiverView<W>) -> (ReceiverView<W>, InboundView<W>) {
    if receiver.closed {
        (receiver, InboundView::Closed)
    } else {
        match parse_frame(receiver.buffer) {
            Parsed::Incomplete => (receiver, InboundView::NeedMore),
            Parsed::Malformed(e) => (
                shut(receiver, receiver.buffer),
                InboundView::Fatal {
                    error: TransportError::Framing(e),
                    abandoned: receiver.pending,
                },
            ),
            Parsed::Frame { payload, consumed } => {
                let rest = receiver.buffer.skip(consumed);
                match read_message(payload) {
                    Err(DecodeError::Syntax) => (
                        shut(receiver, rest),
                        InboundView::Fatal {
                            error: TransportError::Undecodable,
                            abandoned: receiver.pending,
                        },
                    ),
                    Err(DecodeError::Shape(e)) => (
                        ReceiverView { buffer: rest, ..receiver },
                        InboundView::Violation(e),
                    ),
                    Ok(message) => {
                        let routed = route(receiver.pending, message);
                        (
                            ReceiverView { buffer: rest, pending: routed.0, closed: false },
                            InboundView::Routed(routed.1),
                        )
                    },
                }
            },
        }
    }
}

/// Buffers what is read from the transport and routes the messages in it.
pub struct Receiver<W> {
    decoder: FrameDecoder,
    dispatcher: Dispatcher<W>,
}

impl<W> View for Receiver<W> {
    type V = ReceiverView<W>;

    closed spec fn view(&self) -> ReceiverView<W> {
        ReceiverView {
            buffer: self.decoder@,
            pending: self.dispatcher.pending(),
            closed: self.dispatcher.closed(),
        }
    }
}

impl<W> Receiver<W> {
    /// The receiver of a transport that has just opened.
    pub fn new() -> (receiver: Self)
        ensures
            receiver@ == (ReceiverView::<W> {
                buffer: Seq::empty(),
                pending: Seq::empty(),
                closed: false,
            }),
    {
        Receiver { decoder: FrameDecoder::new(), dispatcher: Dispatcher::new() }
    }

    pub fn is_closed(&self) -> (closed: bool)
        ensures
            closed == self@.closed,
    {
        self.dispatcher.is_closed()
    }

    /// Takes note that the answer to request `seq` is owed to `waiter`.
    /// Refused, with the waiter handed back, where the receiver has closed
    /// or a request with that number is in flight already.
    pub fn register(&mut self, seq: u64, waiter: W) -> (r: Result<(), W>)
        requires
            wf(old(self)@),
        ensures
            wf(final(self)@),
            match r {
                Ok(_) => !old(self)@.closed && !is_waiting(old(self)@.pending, seq)
                    && final(self)@ == (ReceiverView {
                    pending: old(self)@.pending.push((seq, waiter)),
                    ..old(self)@
                }),
                Err(w) => (old(self)@.closed || is_waiting(old(self)@.pending, seq)) && w
                    == waiter && final(self)@ == old(self)@,
            },
    {
        self.dispatcher.register(seq, waiter)
    }

    /// Gives up the request numbered `seq`: its waiter is handed back, and
    /// a response that comes later finds no one waiting.
    pub fn cancel(&mut self, seq: u64) -> (r: Option<W>)
        requires
            wf(old(self)@),
        ensures
            wf(final(self)@),
            final(self)@ == (ReceiverView {
                pending: without(old(self)@.pending, seq),
                ..old(self)@
            }),
            r == if is_waiting(old(self)@.pending, seq) {
                Some(waiter_of(old(self)@.pending, seq))
            } else {
                None
            },
    {
        self.dispatcher.cancel(seq)
    }

    /// Takes in the bytes of one read, however many they are.
    pub fn feed(&mut self, bytes: &[u8])
        ensures
            final(self)@ == (ReceiverView {
                buffer: old(self)@.buffer + bytes@,
                ..old(self)@
            }),
    {
        self.decoder.feed(bytes);
    }

    /// Handles the first whole frame in the buffer, if there is one.
    pub fn poll(&mut self) -> (found: Inbound<W>)
        requires
            wf(old(self)@),
        ensures
            wf(final(self)@),
            (final(self)@, found@) == step(old(self)@),
    {
        if self.dispatcher.is_closed() {
            return Inbound::Closed;
        }
        let payload: Vec<u8> = match self.decoder.next_frame() {
            None => {
                return Inbound::NeedMore;
            },
            Some(Err(e)) => {
                let abandoned = self.dispatcher.close();
                return Inbound::Fatal { error: TransportError::Framing(e), abandoned };
            },
            Some(Ok(payload)) => payload,
        };
        match decode_payload(payload.as_slice()) {
            Ok(message) => Inbound::Routed(self.dispatcher.dispatch(message)),
            Err(DecodeError::Shape(e)) => Inbound::Violation(e),
            Err(DecodeError::Syntax) => {
                let abandoned = self.dispatcher.close();
                Inbound::Fatal { error: TransportError::Undecodable, abandoned }
            },
        }
    }

    /// Closes the receiver when the stream has ended or failed.  Every
    /// request still in flight is handed back, to be resolved with a
    /// closure failure, and none is in flight afterwards.
    pub fn close(&mut self) -> (abandoned: Vec<(u64, W)>)
        requires
            wf(old(self)@),
        ensures
            wf(final(self)@),
            abandoned@ == old(self)@.pending,
            final(self)@ == shut(old(self)@, old(self)@.buffer),
    {
        self.dispatcher.close()
    }
}

/// `n` polls one after the other: what the receiver is afterwards, and
/// what each poll found, in order.
pub open spec fn polls<W>(receiver: ReceiverView<W>, n: nat) -> (
    ReceiverView<W>,
    Seq<InboundView<W>>,
)
    decreases n,
{
    if n == 0 {
        (receiver, Seq::empty())
    } else {
        let before = polls(receiver, (n - 1) as nat);
        let last = step(before.0);
        (last.0, before.1.push(last.1))
    }
}

/// After closure nothing is read and nothing is resolved: every poll of a
/// closed receiver finds it closed and leaves it as it is, with no request
/// in flight.  What closure handed back is therefore all that is ever
/// failed, and each of it once.
pub proof fn lemma_closed_stays_closed<W>(receiver: ReceiverView<W>, n: nat)
    requires
        receiver.closed,
    ensures
        polls(receiver, n).0 == receiver,
        polls(receiver, n).1.len() == n,
        forall|k: int| 0 <= k < n ==> polls(receiver, n).1[k] == InboundView::<W>::Closed,
    decreases n,
{
    if n > 0 {
        lemma_closed_stays_closed(receiver, (n - 1) as nat);
    }
}

/// Wire order: where the buffer holds the frames of messages back to back,
/// as many polls as there are frames hand the messages out one by one in
/// the order in which they stand on the wire, each routed by the dispatcher
/// as the messages before it have left it.  So an event that precedes a
/// response on the wire is passed on before that response is delivered.
pub proof fn lemma_wire_order<W>(
    receiver: ReceiverView<W>,
    texts: Seq<Seq<u8>>,
    messages: Seq<PayloadView>,
    tail: Seq<u8>,
)
    requires
        !receiver.closed,
        receiver.buffer == stream(texts) + tail,
        texts.len() == messages.len(),
        forall|i: int|
            0 <= i < texts.len() ==> (#[trigger] texts[i]).len() <= usize::MAX && read_message(
                texts[i],
            ) == Ok::<PayloadView, DecodeError>(messages[i]),
    ensures
        polls(receiver, texts.len()).0 == (ReceiverView {
            buffer: tail,
            pending: route_all(receiver.pending, messages).0,
            closed: false,
        }),
        polls(receiver, texts.len()).1 == route_all(receiver.pending, messages).1.map_values(
            |routed: RoutedView<W>| InboundView::Routed(routed),
        ),
    decreases texts.len(),
{
    let wrap = |routed: RoutedView<W>| InboundView::Routed(routed);
    if texts.len() == 0 {
        assert(stream(texts) + tail =~= tail);
        assert(route_all(receiver.pending, messages).1.map_values(wrap) =~= Seq::<
            InboundView<W>,
        >::empty());
    } else {
        let n = texts.len();
        let front_texts = texts.drop_last();
        let front_messages = messages.drop_last();
        let text = texts.last();
        let message = messages.last();
        let later = frame(text) + tail;
        lemma_stream_push(front_texts, text);
        assert(front_texts.push(text) =~= texts);
        assert(stream(texts) + tail =~= stream(front_texts) + later);
        assert forall|i: int| 0 <= i < front_texts.len() implies (#[trigger] front_texts[i]).len()
            <= usize::MAX && read_message(front_texts[i]) == Ok::<PayloadView, DecodeError>(
            front_messages[i],
        ) by {
            assert(front_texts[i] == texts[i]);
            assert(front_messages[i] == messages[i]);
        }
        lemma_wire_order(receiver, front_texts, front_messages, later);
        let before = polls(receiver, (n - 1) as nat);
        let routed_before = route_all(receiver.pending, front_messages);
        assert(before.0.buffer == later);
        lemma_frame_round_trip(text, tail);
        assert(later.skip(frame(text).len() as int) =~= tail);
        assert(read_message(text) == Ok::<PayloadView, DecodeError>(message));
        let routed = route(routed_before.0, message);
        assert(step(before.0) == (
            ReceiverView { buffer: tail, pending: routed.0, closed: false },
            InboundView::Routed(routed.1),
        ));
        assert(route_all(receiver.pending, messages) == (
            routed.0,
            routed_before.1.push(routed.1),
        ));
        assert(routed_before.1.push(routed.1).map_values(wrap) =~= routed_before.1.map_values(
            wrap,
        ).push(InboundView::Routed(routed.1)));
    }
}

} // verus!
