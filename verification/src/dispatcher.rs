//! Correlation of responses with the requests that wait for them.
//!
//! The dispatcher is the one consumer of inbound messages.  It keeps, for
//! every request in flight, the waiter that the answer is owed to, and
//! routes each message as it arrives: a response goes to the waiter of the
//! request it names, an event or a request of the adapter goes on to the
//! subscriber.  A waiter is whatever the caller resolves a request with; the
//! dispatcher hands it back exactly once, with the answer or at closure.
use crate::message::{
    Event, EventView, Payload, PayloadView, Request, RequestView, Response, ResponseView,
};
use vstd::prelude::*;

verus! {

/// What is to be done with one inbound message.
#[derive(Debug)]
pub enum Routed<W> {
    /// Hand the event to the subscriber.
    Event(Event),
    /// Hand the adapter's request to the subscriber, marked as a request:
    /// the adapter waits for a response to it.
    ReverseRequest(Request),
    /// Resolve `waiter` with `response`.
    Deliver { waiter: W, response: Response },
    /// No request waits for this response: report it and drop it.
    Unmatched(Response),
}

pub enum RoutedView<W> {
    Event(EventView),
    ReverseRequest(RequestView),
    Deliver { waiter: W, response: ResponseView },
    Unmatched(ResponseView),
}

impl<W> View for Routed<W> {
    type V = RoutedView<W>;

    open spec fn view(&self) -> RoutedView<W> {
        match self {
            Routed::Event(e) => RoutedView::Event(e@),
            Routed::ReverseRequest(r) => RoutedView::ReverseRequest(r@),
            Routed::Deliver { waiter, response } => RoutedView::Deliver {
                waiter: *waiter,
                response: response@,
            },
            Routed::Unmatched(r) => RoutedView::Unmatched(r@),
        }
    }
}

/// No sequence number occurs twice among the requests in flight.
pub open spec fn distinct<W>(pending: Seq<(u64, W)>) -> bool {
    forall|i: int, j: int|
        0 <= i < j < pending.len() ==> (#[trigger] pending[i]).0 != (#[trigger] pending[j]).0
}

/// A request numbered `seq` is in flight.
pub open spec fn is_waiting<W>(pending: Seq<(u64, W)>, seq: u64) -> bool {
    exists|i: int| 0 <= i < pending.len() && (#[trigger] pending[i]).0 == seq
}

/// Where the request numbered `seq` stands among those in flight.
pub open spec fn waiting_at<W>(pending: Seq<(u64, W)>, seq: u64) -> int {
    choose|i: int| 0 <= i < pending.len() && (#[trigger] pending[i]).0 == seq
}

/// The waiter of the request numbered `seq`.
pub open spec fn waiter_of<W>(pending: Seq<(u64, W)>, seq: u64) -> W {
    pending[waiting_at(pending, seq)].1
}

/// The requests in flight without the one numbered `seq`.
pub open spec fn without<W>(pending: Seq<(u64, W)>, seq: u64) -> Seq<(u64, W)> {
    if is_waiting(pending, seq) {
        pending.remove(waiting_at(pending, seq))
    } else {
        pending
    }
}

/// Routing of one message: what becomes of the requests in flight, and what
/// is to be done with the message.
pub open spec fn route<W>(pending: Seq<(u64, W)>, payload: PayloadView) -> (
    Seq<(u64, W)>,
    RoutedView<W>,
) {
    match payload {
        PayloadView::Event(e) => (pending, RoutedView::Event(e)),
        PayloadView::Request(r) => (pending, RoutedView::ReverseRequest(r)),
        PayloadView::Response(r) => if is_waiting(pending, r.request_seq) {
            (
                without(pending, r.request_seq),
                RoutedView::Deliver { waiter: waiter_of(pending, r.request_seq), response: r },
            )
        } else {
            (pending, RoutedView::Unmatched(r))
        },
    }
}

/// Routing of messages one after the other, in the order given.
pub open spec fn route_all<W>(pending: Seq<(u64, W)>, payloads: Seq<PayloadView>) -> (
    Seq<(u64, W)>,
    Seq<RoutedView<W>>,
)
    decreases payloads.len(),
{
    if payloads.len() == 0 {
        (pending, Seq::empty())
    } else {
        let before = route_all(pending, payloads.drop_last());
        let last = route(before.0, payloads.last());
        (last.0, before.1.push(last.1))
    }
}

/// With distinct numbers, the place of a number in flight is the only place
/// that holds it.
pub proof fn lemma_waiting_at<W>(pending: Seq<(u64, W)>, i: int)
    requires
        distinct(pending),
        0 <= i < pending.len(),
    ensures
        is_waiting(pending, pending[i].0),
        waiting_at(pending, pending[i].0) == i,
{
    let seq = pending[i].0;
    let j = waiting_at(pending, seq);
    assert(0 <= j < pending.len() && pending[j].0 == seq);
    if j < i {
        assert(pending[j].0 != pending[i].0);
    } else if i < j {
        assert(pending[i].0 != pending[j].0);
    }
}

/// Taking one request out of those in flight keeps the numbers distinct and
/// takes out that number only.
pub proof fn lemma_remove<W>(pending: Seq<(u64, W)>, i: int)
    requires
        distinct(pending),
        0 <= i < pending.len(),
    ensures
        distinct(pending.remove(i)),
        !is_waiting(pending.remove(i), pending[i].0),
        forall|seq: u64|
            seq != pending[i].0 ==> is_waiting(pending.remove(i), seq) == is_waiting(pending, seq),
        forall|seq: u64|
            seq != pending[i].0 && is_waiting(pending, seq) ==> waiter_of(pending.remove(i), seq)
                == waiter_of(pending, seq),
{
    let rest = pending.remove(i);
    assert forall|a: int, b: int| 0 <= a < b < rest.len() implies (#[trigger] rest[a]).0 != (
    #[trigger] rest[b]).0 by {
        let a0 = if a < i {
            a
        } else {
            a + 1
        };
        let b0 = if b < i {
            b
        } else {
            b + 1
        };
        assert(rest[a] == pending[a0] && rest[b] == pending[b0]);
    }
    if is_waiting(rest, pending[i].0) {
        let k = waiting_at(rest, pending[i].0);
        let k0 = if k < i {
            k
        } else {
            k + 1
        };
        assert(rest[k] == pending[k0]);
        if k0 < i {
            assert(pending[k0].0 != pending[i].0);
        } else {
            assert(pending[i].0 != pending[k0].0);
        }
    }
    assert forall|seq: u64| seq != pending[i].0 implies is_waiting(rest, seq) == is_waiting(
        pending,
        seq,
    ) by {
        if is_waiting(pending, seq) {
            let k = waiting_at(pending, seq);
            let k1 = if k < i {
                k
            } else {
                k - 1
            };
            assert(rest[k1] == pending[k]);
        }
        if is_waiting(rest, seq) {
            let k = waiting_at(rest, seq);
            let k0 = if k < i {
                k
            } else {
                k + 1
            };
            assert(rest[k] == pending[k0]);
        }
    }
    assert forall|seq: u64| seq != pending[i].0 && is_waiting(pending, seq) implies waiter_of(
        rest,
        seq,
    ) == waiter_of(pending, seq) by {
        let k = waiting_at(pending, seq);
        let k1 = if k < i {
            k
        } else {
            k - 1
        };
        assert(rest[k1] == pending[k]);
        lemma_waiting_at(rest, k1);
    }
}

/// `payload` is a response to the request numbered `seq`.
pub open spec fn answers(payload: PayloadView, seq: u64) -> bool {
    match payload {
        PayloadView::Response(r) => r.request_seq == seq,
        _ => false,
    }
}

/// A response to the request numbered `seq` stands among `payloads`.
pub open spec fn answered(payloads: Seq<PayloadView>, seq: u64) -> bool {
    exists|j: int| 0 <= j < payloads.len() && answers(#[trigger] payloads[j], seq)
}

/// A number above every number in flight is not in flight.  A session hands
/// out numbers in increasing order, so the number of a new request is never
/// refused as in flight already.
pub proof fn lemma_fresh_number_is_not_waiting<W>(pending: Seq<(u64, W)>, seq: u64, waiter: W)
    requires
        forall|i: int| 0 <= i < pending.len() ==> (#[trigger] pending[i]).0 < seq,
    ensures
        !is_waiting(pending, seq),
        distinct(pending) ==> distinct(pending.push((seq, waiter))),
{
    let longer = pending.push((seq, waiter));
    if distinct(pending) {
        assert forall|i: int, j: int| 0 <= i < j < longer.len() implies (#[trigger] longer[i]).0
            != (#[trigger] longer[j]).0 by {
            assert(longer[i] == pending[i]);
            if j < pending.len() {
                assert(longer[j] == pending[j]);
            }
        }
    }
}

/// A response goes to the waiter of the request it names, and to that one
/// only: the request leaves those in flight and every other stays, with its
/// waiter, where it was.
pub proof fn lemma_response_finds_its_waiter<W>(
    pending: Seq<(u64, W)>,
    i: int,
    response: ResponseView,
)
    requires
        distinct(pending),
        0 <= i < pending.len(),
        response.request_seq == pending[i].0,
    ensures
        route(pending, PayloadView::Response(response)) == (
            pending.remove(i),
            RoutedView::Deliver { waiter: pending[i].1, response },
        ),
{
    lemma_waiting_at(pending, i);
}

/// A response that names no request in flight is dropped, and the requests
/// in flight are as they were.
pub proof fn lemma_unmatched_response_is_dropped<W>(pending: Seq<(u64, W)>, response: ResponseView)
    requires
        !is_waiting(pending, response.request_seq),
    ensures
        route(pending, PayloadView::Response(response)) == (
            pending,
            RoutedView::<W>::Unmatched(response),
        ),
{
}

/// Once nothing is in flight, as after closure, nothing is delivered: no
/// waiter is resolved a second time.
pub proof fn lemma_nothing_in_flight_nothing_delivered<W>(
    pending: Seq<(u64, W)>,
    payload: PayloadView,
)
    requires
        pending.len() == 0,
    ensures
        route(pending, payload).0 == pending,
        !(route(pending, payload).1 is Deliver),
{
}

/// Every message has one outcome.
pub proof fn lemma_route_all_len<W>(pending: Seq<(u64, W)>, payloads: Seq<PayloadView>)
    ensures
        route_all(pending, payloads).1.len() == payloads.len(),
    decreases payloads.len(),
{
    if payloads.len() > 0 {
        lemma_route_all_len(pending, payloads.drop_last());
    }
}

/// What is done with the message at place `k` depends on the messages
/// before it alone: it is the routing of that message by the dispatcher as
/// the messages before have left it.
pub proof fn lemma_route_all_at<W>(pending: Seq<(u64, W)>, payloads: Seq<PayloadView>, k: int)
    requires
        0 <= k < payloads.len(),
    ensures
        route_all(pending, payloads).1.len() == payloads.len(),
        route_all(pending, payloads).1[k] == route(
            route_all(pending, payloads.take(k)).0,
            payloads[k],
        ).1,
    decreases payloads.len(),
{
    let front = payloads.drop_last();
    lemma_route_all_len(pending, payloads);
    lemma_route_all_len(pending, front);
    if k == payloads.len() - 1 {
        assert(payloads.take(k) =~= front);
    } else {
        lemma_route_all_at(pending, front, k);
        assert(front.take(k) =~= payloads.take(k));
    }
}

/// After any run of messages, the requests still in flight are those that
/// were in flight at the start and have had no response, each with the
/// waiter it had.
pub proof fn lemma_route_all_pending<W>(pending: Seq<(u64, W)>, payloads: Seq<PayloadView>)
    requires
        distinct(pending),
    ensures
        distinct(route_all(pending, payloads).0),
        forall|seq: u64| #[trigger]
            is_waiting(route_all(pending, payloads).0, seq) <==> is_waiting(pending, seq)
                && !answered(payloads, seq),
        forall|seq: u64| #[trigger]
            is_waiting(route_all(pending, payloads).0, seq) ==> waiter_of(
                route_all(pending, payloads).0,
                seq,
            ) == waiter_of(pending, seq),
    decreases payloads.len(),
{
    let after = route_all(pending, payloads).0;
    if payloads.len() == 0 {
        assert(after == pending);
    } else {
        let front = payloads.drop_last();
        let last = payloads.last();
        let before = route_all(pending, front).0;
        lemma_route_all_pending(pending, front);
        assert(after == route(before, last).0);
        assert forall|seq: u64| answered(payloads, seq) <==> answered(front, seq) || answers(
            last,
            seq,
        ) by {
            if answered(front, seq) {
                let j = choose|j: int| 0 <= j < front.len() && answers(#[trigger] front[j], seq);
                assert(payloads[j] == front[j]);
            }
            if answers(last, seq) {
                assert(payloads[payloads.len() - 1] == last);
            }
            if answered(payloads, seq) {
                let j = choose|j: int|
                    0 <= j < payloads.len() && answers(#[trigger] payloads[j], seq);
                if j < front.len() {
                    assert(front[j] == payloads[j]);
                }
            }
        }
        if last is Response {
            let q = last->Response_0.request_seq;
            assert(answers(last, q));
            if is_waiting(before, q) {
                let i = waiting_at(before, q);
                assert(before[i].0 == q);
                assert(after == before.remove(i));
                lemma_remove(before, i);
            } else {
                assert(after == before);
            }
            assert forall|seq: u64| #[trigger]
                is_waiting(after, seq) <==> is_waiting(pending, seq) && !answered(
                    payloads,
                    seq,
                ) by {
                if seq != q {
                    assert(!answers(last, seq));
                    assert(is_waiting(after, seq) == is_waiting(before, seq));
                }
            }
            assert forall|seq: u64| #[trigger] is_waiting(after, seq) implies waiter_of(after, seq)
                == waiter_of(pending, seq) by {
                assert(seq != q);
                assert(is_waiting(before, seq));
            }
        } else {
            assert(after == before);
            assert forall|seq: u64| #[trigger]
                is_waiting(after, seq) <==> is_waiting(pending, seq) && !answered(
                    payloads,
                    seq,
                ) by {
                assert(!answers(last, seq));
            }
        }
    }
}

/// Each request gets its own response, whatever else arrives and in
/// whatever order: the first response that names a request in flight is
/// delivered to the waiter registered for that request.
pub proof fn lemma_each_request_gets_its_response<W>(
    pending: Seq<(u64, W)>,
    payloads: Seq<PayloadView>,
    i: int,
    k: int,
    response: ResponseView,
)
    requires
        distinct(pending),
        0 <= i < pending.len(),
        0 <= k < payloads.len(),
        payloads[k] == PayloadView::Response(response),
        response.request_seq == pending[i].0,
        !answered(payloads.take(k), response.request_seq),
    ensures
        route_all(pending, payloads).1[k] == (RoutedView::Deliver {
            waiter: pending[i].1,
            response,
        }),
{
    lemma_route_all_at(pending, payloads, k);
    lemma_route_all_pending(pending, payloads.take(k));
    lemma_waiting_at(pending, i);
    assert(is_waiting(route_all(pending, payloads.take(k)).0, response.request_seq));
}

/// No response reaches the wrong waiter, and none is delivered twice: what
/// is delivered at place `k` is the response that arrived at place `k`, it
/// goes to the waiter registered for the request it names, and no response
/// before it named that request.
pub proof fn lemma_delivery_is_sound<W>(
    pending: Seq<(u64, W)>,
    payloads: Seq<PayloadView>,
    k: int,
)
    requires
        distinct(pending),
        0 <= k < payloads.len(),
        route_all(pending, payloads).1[k] is Deliver,
    ensures
        payloads[k] is Response,
        route_all(pending, payloads).1[k]->Deliver_response == payloads[k]->Response_0,
        is_waiting(pending, payloads[k]->Response_0.request_seq),
        route_all(pending, payloads).1[k]->Deliver_waiter == waiter_of(
            pending,
            payloads[k]->Response_0.request_seq,
        ),
        !answered(payloads.take(k), payloads[k]->Response_0.request_seq),
{
    lemma_route_all_at(pending, payloads, k);
    lemma_route_all_pending(pending, payloads.take(k));
    let before = route_all(pending, payloads.take(k)).0;
    assert(is_waiting(before, payloads[k]->Response_0.request_seq));
}

/// Messages are handled in the order of their arrival, one outcome for
/// each: an event or a request of the adapter is passed on at its own
/// place, between the responses that arrived before it and those that
/// arrived after it, and a response is delivered or dropped at its place.
pub proof fn lemma_routed_in_arrival_order<W>(
    pending: Seq<(u64, W)>,
    payloads: Seq<PayloadView>,
    k: int,
)
    requires
        0 <= k < payloads.len(),
    ensures
        route_all(pending, payloads).1.len() == payloads.len(),
        match payloads[k] {
            PayloadView::Event(e) => route_all(pending, payloads).1[k] == RoutedView::<W>::Event(e),
            PayloadView::Request(r) => route_all(pending, payloads).1[k] == RoutedView::<
                W,
            >::ReverseRequest(r),
            PayloadView::Response(r) => route_all(pending, payloads).1[k]
                == RoutedView::<W>::Unmatched(r) || (route_all(pending, payloads).1[k] is Deliver
                && route_all(pending, payloads).1[k]->Deliver_response == r),
        },
{
    lemma_route_all_at(pending, payloads, k);
}

/// The requests in flight and the waiters that their answers are owed to.
pub struct Dispatcher<W> {
    pending: Vec<(u64, W)>,
    closed: bool,
}

impl<W> Dispatcher<W> {
    /// The requests in flight, oldest first, each with its waiter.
    pub closed spec fn pending(&self) -> Seq<(u64, W)> {
        self.pending@
    }

    /// Whether the transport has closed.
    pub closed spec fn closed(&self) -> bool {
        self.closed
    }

    /// The numbers in flight are distinct, and nothing is in flight once the
    /// transport has closed.
    pub open spec fn wf(&self) -> bool {
        distinct(self.pending()) && (self.closed() ==> self.pending().len() == 0)
    }

    /// A dispatcher of an open transport, with no request in flight.
    pub fn new() -> (dispatcher: Self)
        ensures
            dispatcher.wf(),
            dispatcher.pending() == Seq::<(u64, W)>::empty(),
            !dispatcher.closed(),
    {
        Dispatcher { pending: Vec::new(), closed: false }
    }

    pub fn is_closed(&self) -> (closed: bool)
        ensures
            closed == self.closed(),
    {
        self.closed
    }

    /// Number of requests in flight.
    pub fn in_flight(&self) -> (n: usize)
        ensures
            n == self.pending().len(),
    {
        self.pending.len()
    }

    fn position(&self, seq: u64) -> (r: Option<usize>)
        requires
            self.wf(),
        ensures
            match r {
                Some(i) => i < self.pending().len() && self.pending()[i as int].0 == seq
                    && is_waiting(self.pending(), seq) && waiting_at(self.pending(), seq) == i,
                None => !is_waiting(self.pending(), seq),
            },
    {
        let n: usize = self.pending.len();
        let mut i: usize = 0;
        while i < n
            invariant
                i <= n,
                n == self.pending@.len(),
                distinct(self.pending@),
                forall|k: int| 0 <= k < i ==> (#[trigger] self.pending@[k]).0 != seq,
            decreases n - i,
        {
            if self.pending[i].0 == seq {
                proof {
                    lemma_waiting_at(self.pending@, i as int);
                }
                return Some(i);
            }
            i = i + 1;
        }
        None
    }

    /// Whether a request numbered `seq` is in flight.
    pub fn is_waiting(&self, seq: u64) -> (waiting: bool)
        requires
            self.wf(),
        ensures
            waiting == is_waiting(self.pending(), seq),
    {
        self.position(seq).is_some()
    }

    /// Takes note that the answer to request `seq` is owed to `waiter`.
    /// Refused, with the waiter handed back, where the transport has closed
    /// or a request with that number is in flight already.
    pub fn register(&mut self, seq: u64, waiter: W) -> (r: Result<(), W>)
        requires
            old(self).wf(),
        ensures
            final(self).wf(),
            final(self).closed() == old(self).closed(),
            match r {
                Ok(_) => !old(self).closed() && !is_waiting(old(self).pending(), seq)
                    && final(self).pending() == old(self).pending().push((seq, waiter)),
                Err(w) => (old(self).closed() || is_waiting(old(self).pending(), seq)) && w
                    == waiter && final(self).pending() == old(self).pending(),
            },
    {
        if self.closed {
            return Err(waiter);
        }
        if self.position(seq).is_some() {
            return Err(waiter);
        }
        let ghost before = self.pending@;
        self.pending.push((seq, waiter));
        assert(distinct(self.pending@)) by {
            assert forall|i: int, j: int| 0 <= i < j < self.pending@.len() implies (
            #[trigger] self.pending@[i]).0 != (#[trigger] self.pending@[j]).0 by {
                assert(self.pending@[i] == before[i]);
                if j < before.len() {
                    assert(self.pending@[j] == before[j]);
                }
            }
        }
        Ok(())
    }

    /// Gives up the request numbered `seq`: its waiter is handed back and a
    /// response that comes later finds no one waiting.
    pub fn cancel(&mut self, seq: u64) -> (r: Option<W>)
        requires
            old(self).wf(),
        ensures
            final(self).wf(),
            final(self).closed() == old(self).closed(),
            final(self).pending() == without(old(self).pending(), seq),
            r == if is_waiting(old(self).pending(), seq) {
                Some(waiter_of(old(self).pending(), seq))
            } else {
                None
            },
    {
        match self.position(seq) {
            Some(i) => {
                proof {
                    lemma_remove(self.pending@, i as int);
                }
                let entry: (u64, W) = self.pending.remove(i);
                Some(entry.1)
            },
            None => None,
        }
    }

    /// Routes one inbound message.
    pub fn dispatch(&mut self, payload: Payload) -> (routed: Routed<W>)
        requires
            old(self).wf(),
        ensures
            final(self).wf(),
            final(self).closed() == old(self).closed(),
            (final(self).pending(), routed@) == route(old(self).pending(), payload@),
    {
        match payload {
            Payload::Event(event) => Routed::Event(event),
            Payload::Request(request) => Routed::ReverseRequest(request),
            Payload::Response(response) => match self.cancel(response.request_seq) {
                Some(waiter) => Routed::Deliver { waiter, response },
                None => Routed::Unmatched(response),
            },
        }
    }

    /// Closes the dispatcher when the transport has ended.  Every request
    /// still in flight is handed back, to be resolved with a closure
    /// failure, and none is in flight afterwards.
    pub fn close(&mut self) -> (abandoned: Vec<(u64, W)>)
        requires
            old(self).wf(),
        ensures
            final(self).wf(),
            abandoned@ == old(self).pending(),
            final(self).pending() == Seq::<(u64, W)>::empty(),
            final(self).closed(),
    {
        let mut abandoned: Vec<(u64, W)> = Vec::new();
        std::mem::swap(&mut self.pending, &mut abandoned);
        self.closed = true;
        abandoned
    }
}

} // verus!
