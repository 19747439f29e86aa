//! The bounded, ordered hand-over of shaped records from the task that reads
//! search results to the consumer that pulls them.
//!
//! The bridge holds the buffer and makes every decision; the caller performs
//! them: it reads the next search result when told to, waits when the buffer
//! is full or empty, and tears down the search when told to stop.

use std::collections::VecDeque;
use vstd::prelude::*;
use crate::shape::{RawEntry, ShapedRecord, is_shaping_of, shape_entry};

verus! {

/// A failure of the search while results are streamed.
#[derive(Debug, PartialEq, Eq)]
pub enum QueryError {
    /// Malformed response, server-side limit, or a severed connection.
    Protocol(String),
}

/// One element of the result sequence.
pub type StreamItem = Result<ShapedRecord, QueryError>;

/// What the reading side observed.
#[derive(Debug, PartialEq, Eq)]
pub enum SearchEvent {
    /// The server sent an entry.
    Entry(RawEntry),
    /// The server signalled the end of the results.
    Done,
    /// Reading the next result failed.
    Failed(QueryError),
    /// Shutdown was requested.
    Cancelled,
}

/// What the reading side is to do next.
#[derive(PartialEq, Eq, Structural, Clone, Copy, Debug)]
pub enum ProducerAction {
    /// Read the next search result.
    Read,
    /// Wait until the consumer has made room.
    Wait,
    /// Read no more; close the connection and finish.
    Stop,
}

/// What a pull by the consumer gives.
#[derive(Debug, PartialEq, Eq)]
pub enum PullOutcome {
    /// The next record.
    Item(ShapedRecord),
    /// The search failed; this is the last element of the sequence.
    Failed(QueryError),
    /// Nothing buffered yet: wait for the producer.
    Pending,
    /// The sequence is over.
    Ended,
}

/// The state of a bridge as a mathematical value.
pub struct BridgeView {
    /// Items handed over and not yet pulled, oldest first.
    pub queue: Seq<StreamItem>,
    pub capacity: nat,
    /// The producer will hand over nothing more.
    pub closed: bool,
    /// The consumer has given up the sequence.
    pub abandoned: bool,
    /// The consumer has seen the end of the sequence.
    pub ended: bool,
    /// Every item ever handed over, in order.
    pub sent: Seq<StreamItem>,
    /// Every item the consumer has pulled, in order.
    pub delivered: Seq<StreamItem>,
}

impl BridgeView {
    pub open spec fn wf(self) -> bool {
        &&& self.capacity > 0
        &&& self.queue.len() <= self.capacity
        &&& self.delivered == self.sent.take(self.delivered.len() as int)
        &&& !self.abandoned ==> self.sent == self.delivered + self.queue
        &&& self.abandoned ==> self.queue.len() == 0 && self.ended && self.closed
        &&& self.ended ==> self.queue.len() == 0 && self.closed
        &&& forall|i: int|
            0 <= i < self.sent.len() && (#[trigger] self.sent[i]) is Err ==> i == self.sent.len()
                - 1 && self.closed
    }
}

/// The state of a bridge with the given buffer bound, before anything happened.
pub open spec fn initial(capacity: nat) -> BridgeView {
    BridgeView {
        queue: Seq::empty(),
        capacity,
        closed: false,
        abandoned: false,
        ended: false,
        sent: Seq::empty(),
        delivered: Seq::empty(),
    }
}

/// What the producer is to do in state `s`.
pub open spec fn next_action(s: BridgeView) -> ProducerAction {
    if s.closed || s.abandoned {
        ProducerAction::Stop
    } else if s.queue.len() < s.capacity {
        ProducerAction::Read
    } else {
        ProducerAction::Wait
    }
}

/// The producer may hand an item over: there is room, or it will be
/// dropped because the bridge is closed or abandoned.
pub open spec fn can_accept(s: BridgeView) -> bool {
    s.closed || s.abandoned || s.queue.len() < s.capacity
}

/// `x` is handed over.
pub open spec fn push_item(s: BridgeView, x: StreamItem) -> BridgeView {
    BridgeView { queue: s.queue.push(x), sent: s.sent.push(x), ..s }
}

/// The producer hands over nothing more.
pub open spec fn close(s: BridgeView) -> BridgeView {
    BridgeView { closed: true, ..s }
}

/// The consumer gives the sequence up; what was buffered is dropped.
pub open spec fn abandon_step(s: BridgeView) -> BridgeView {
    BridgeView { queue: Seq::empty(), closed: true, abandoned: true, ended: true, ..s }
}

pub open spec fn outcome_of(x: StreamItem) -> PullOutcome {
    match x {
        Ok(r) => PullOutcome::Item(r),
        Err(e) => PullOutcome::Failed(e),
    }
}

/// One pull by the consumer: the state after it and what it gives.
pub open spec fn pull_step(s: BridgeView) -> (BridgeView, PullOutcome) {
    if s.ended {
        (s, PullOutcome::Ended)
    } else if s.queue.len() > 0 {
        let x = s.queue[0];
        (
            BridgeView {
                queue: s.queue.drop_first(),
                delivered: s.delivered.push(x),
                ended: x is Err,
                ..s
            },
            outcome_of(x),
        )
    } else if s.closed {
        (BridgeView { ended: true, ..s }, PullOutcome::Ended)
    } else {
        (s, PullOutcome::Pending)
    }
}

/// What `n` successive pulls from state `s` give.
pub open spec fn outcomes(s: BridgeView, n: nat) -> Seq<PullOutcome>
    decreases n,
{
    if n == 0 {
        Seq::empty()
    } else {
        seq![pull_step(s).1] + outcomes(pull_step(s).0, (n - 1) as nat)
    }
}

/// `n` ends of sequence.
pub open spec fn ends(n: nat) -> Seq<PullOutcome> {
    Seq::new(n, |_i: int| PullOutcome::Ended)
}

/// Every item but the last is a record.
pub open spec fn failure_only_last(q: Seq<StreamItem>) -> bool {
    forall|i: int| 0 <= i < q.len() - 1 ==> (#[trigger] q[i]) is Ok
}

/// In a well-formed state a failure can only be the last buffered item.
proof fn lemma_queue_failure_only_last(s: BridgeView)
    requires
        s.wf(),
    ensures
        failure_only_last(s.queue),
        s.queue.len() > 0 && s.queue.last() is Err ==> s.closed,
{
    if !s.abandoned {
        assert forall|i: int| 0 <= i < s.queue.len() - 1 implies (#[trigger] s.queue[i]) is Ok by {
            let j = s.delivered.len() + i;
            assert(s.sent[j] == s.queue[i]);
        }
        if s.queue.len() > 0 && s.queue.last() is Err {
            assert(s.sent[s.sent.len() - 1] == s.queue.last());
        }
    }
}

/// Once the consumer has seen the end, every pull gives the end again.
proof fn lemma_ended_stays_ended(s: BridgeView, k: nat)
    requires
        s.ended,
    ensures
        outcomes(s, k) == ends(k),
    decreases k,
{
    if k > 0 {
        lemma_ended_stays_ended(s, (k - 1) as nat);
        assert(outcomes(s, k) =~= ends(k));
    }
}

/// Pulls from an open stream give the buffered items, oldest first.
proof fn lemma_drain_prefix(s: BridgeView, n: nat)
    requires
        !s.ended,
        failure_only_last(s.queue),
        n <= s.queue.len(),
    ensures
        outcomes(s, n) == s.queue.take(n as int).map_values(|x: StreamItem| outcome_of(x)),
    decreases n,
{
    if n > 0 {
        let t = pull_step(s).0;
        if s.queue[0] is Err {
            assert(s.queue.len() == 1);
            assert(outcomes(t, 0) =~= Seq::empty());
        } else {
            assert(failure_only_last(t.queue)) by {
                assert forall|i: int| 0 <= i < t.queue.len() - 1 implies (#[trigger] t.queue[i]) is Ok by {
                    assert(t.queue[i] == s.queue[i + 1]);
                }
            }
            lemma_drain_prefix(t, (n - 1) as nat);
        }
        assert(outcomes(s, n) =~= s.queue.take(n as int).map_values(|x: StreamItem| outcome_of(x)));
    }
}

/// Pulls from a closed stream give the buffered items, oldest first, and
/// then only ends.
proof fn lemma_drain_closed(s: BridgeView, k: nat)
    requires
        !s.ended,
        s.closed,
        failure_only_last(s.queue),
    ensures
        outcomes(s, s.queue.len() + k) == s.queue.map_values(|x: StreamItem| outcome_of(x)) + ends(k),
    decreases s.queue.len(), k,
{
    let t = pull_step(s).0;
    if s.queue.len() == 0 {
        if k > 0 {
            lemma_ended_stays_ended(t, (k - 1) as nat);
            assert(outcomes(s, k) =~= ends(k));
        }
        assert(s.queue.map_values(|x: StreamItem| outcome_of(x)) + ends(k) =~= ends(k));
    } else {
        if s.queue[0] is Err {
            assert(s.queue.len() == 1);
            lemma_ended_stays_ended(t, k);
        } else {
            assert(failure_only_last(t.queue)) by {
                assert forall|i: int| 0 <= i < t.queue.len() - 1 implies (#[trigger] t.queue[i]) is Ok by {
                    assert(t.queue[i] == s.queue[i + 1]);
                }
            }
            lemma_drain_closed(t, k);
        }
        assert(s.queue.len() + k - 1 == t.queue.len() + k);
        assert(outcomes(s, s.queue.len() + k) =~= s.queue.map_values(|x: StreamItem| outcome_of(x))
            + ends(k));
    }
}

/// The consumer receives items in the order the producer handed them over,
/// which is the order of arrival from the server: what it has pulled is
/// always a prefix of what was sent, and a sequence that ended without
/// being abandoned delivered everything that was sent.
pub proof fn lemma_arrival_order(s: BridgeView)
    requires
        s.wf(),
    ensures
        s.delivered == s.sent.take(s.delivered.len() as int),
        s.ended && !s.abandoned ==> s.delivered == s.sent,
        !s.ended ==> outcomes(s, s.queue.len()) == s.queue.map_values(
            |x: StreamItem| outcome_of(x),
        ),
{
    lemma_queue_failure_only_last(s);
    if s.ended && !s.abandoned {
        assert(s.sent =~= s.delivered);
    }
    if !s.ended {
        lemma_drain_prefix(s, s.queue.len());
        assert(s.queue.take(s.queue.len() as int) =~= s.queue);
    }
}

/// The buffer never holds more than its bound, the producer is told to
/// read only while there is room, and nothing is lost: every item sent is
/// either delivered or still buffered, unless the consumer gave up.
pub proof fn lemma_bounded_and_lossless(s: BridgeView)
    requires
        s.wf(),
    ensures
        s.queue.len() <= s.capacity,
        next_action(s) == ProducerAction::Read ==> s.queue.len() < s.capacity,
        next_action(s) == ProducerAction::Wait ==> s.queue.len() == s.capacity,
        !s.abandoned ==> s.sent == s.delivered + s.queue,
{
}

/// A search that has ended, cleanly or not: the consumer pulls every
/// buffered item exactly once, oldest first, and then only ends.  With the
/// bound large enough or a consumer that keeps pulling, this is every entry
/// the server sent, in its order.
pub proof fn lemma_closed_stream_drains_in_order(s: BridgeView, k: nat)
    requires
        s.wf(),
        !s.ended,
        s.closed,
    ensures
        outcomes(s, s.queue.len() + k) == s.queue.map_values(|x: StreamItem| outcome_of(x)) + ends(k),
{
    lemma_queue_failure_only_last(s);
    lemma_drain_closed(s, k);
}

/// A search that fails after some entries: the consumer pulls those
/// entries in order, then exactly one failure, then only the end; the
/// producer is told to stop rather than retry.
pub proof fn lemma_failure_is_last(s: BridgeView, k: nat)
    requires
        s.wf(),
        !s.ended,
        s.queue.len() > 0,
        s.queue.last() is Err,
    ensures
        next_action(s) == ProducerAction::Stop,
        forall|i: int| 0 <= i < s.queue.len() - 1 ==> (#[trigger] s.queue[i]) is Ok,
        outcomes(s, s.queue.len() + k) == s.queue.map_values(|x: StreamItem| outcome_of(x)) + ends(k),
{
    lemma_queue_failure_only_last(s);
    lemma_drain_closed(s, k);
}

/// A search with no results: the producer closes the bridge at once and
/// the consumer's first pull gives the end, not a failure.
pub proof fn lemma_no_entries_end_cleanly(capacity: nat)
    requires
        capacity > 0,
    ensures
        close(initial(capacity)).wf(),
        pull_step(close(initial(capacity))).1 == PullOutcome::Ended,
        pull_step(close(initial(capacity))).0.delivered.len() == 0,
{
    let s = close(initial(capacity));
    assert(s.sent =~= s.delivered + s.queue);
    assert(s.delivered =~= s.sent.take(0));
}

/// Once the consumer gives the sequence up, nothing stays buffered, the
/// producer is told to stop at its next step, and every pull gives the end.
pub proof fn lemma_abandon_stops_producer(s: BridgeView, k: nat)
    requires
        s.wf(),
    ensures
        abandon_step(s).wf(),
        abandon_step(s).queue.len() == 0,
        next_action(abandon_step(s)) == ProducerAction::Stop,
        outcomes(abandon_step(s), k) == ends(k),
{
    let t = abandon_step(s);
    assert forall|i: int| 0 <= i < t.sent.len() && (#[trigger] t.sent[i]) is Err implies i
        == t.sent.len() - 1 && t.closed by {
        assert(s.sent[i] is Err);
    }
    lemma_ended_stays_ended(t, k);
}

/// The bridge: a bounded first-in first-out buffer with the state of both
/// sides.
pub struct StreamBridge {
    queue: VecDeque<StreamItem>,
    capacity: usize,
    closed: bool,
    abandoned: bool,
    ended: bool,
    sent: Ghost<Seq<StreamItem>>,
    delivered: Ghost<Seq<StreamItem>>,
}

impl View for StreamBridge {
    type V = BridgeView;

    closed spec fn view(&self) -> BridgeView {
        BridgeView {
            queue: self.queue@,
            capacity: self.capacity as nat,
            closed: self.closed,
            abandoned: self.abandoned,
            ended: self.ended,
            sent: self.sent@,
            delivered: self.delivered@,
        }
    }
}

impl StreamBridge {
    /// A bridge whose buffer holds at most `capacity` items.
    pub fn new(capacity: usize) -> (r: StreamBridge)
        requires
            capacity > 0,
        ensures
            r@ == initial(capacity as nat),
            r@.wf(),
    {
        let r = StreamBridge {
            queue: VecDeque::new(),
            capacity,
            closed: false,
            abandoned: false,
            ended: false,
            sent: Ghost(Seq::empty()),
            delivered: Ghost(Seq::empty()),
        };
        assert(r@.sent =~= r@.delivered + r@.queue);
        assert(r@.delivered =~= r@.sent.take(0));
        r
    }

    /// What the producer is to do now.
    pub fn producer_action(&self) -> (r: ProducerAction)
        requires
            self@.wf(),
        ensures
            r == next_action(self@),
            r == ProducerAction::Read ==> can_accept(self@),
    {
        if self.closed || self.abandoned {
            ProducerAction::Stop
        } else if self.queue.len() < self.capacity {
            ProducerAction::Read
        } else {
            ProducerAction::Wait
        }
    }

    /// Whether the producer may hand an item over now.
    pub fn has_room(&self) -> (r: bool)
        requires
            self@.wf(),
        ensures
            r == can_accept(self@),
    {
        self.closed || self.abandoned || self.queue.len() < self.capacity
    }

    /// Takes what the reading side observed and says what it does next.  An
    /// entry is shaped and buffered; the end of the results, a failure or
    /// a shutdown closes the bridge, a failure after buffering it as the
    /// last item.  Once closed or abandoned, nothing more is buffered.
    pub fn accept(&mut self, event: SearchEvent) -> (r: ProducerAction)
        requires
            old(self)@.wf(),
            event is Entry || event is Failed ==> can_accept(old(self)@),
        ensures
            final(self)@.wf(),
            old(self)@.closed || old(self)@.abandoned ==> final(self)@ == old(self)@ && r
                == ProducerAction::Stop,
            !old(self)@.closed && !old(self)@.abandoned ==> match event {
                SearchEvent::Entry(raw) => exists|rec: ShapedRecord|
                    is_shaping_of(rec, raw) && final(self)@ == push_item(old(self)@, Ok(rec))
                        && r == next_action(final(self)@),
                SearchEvent::Done => final(self)@ == close(old(self)@) && r
                    == ProducerAction::Stop,
                SearchEvent::Failed(e) => final(self)@ == close(push_item(old(self)@, Err(e)))
                    && r == ProducerAction::Stop,
                SearchEvent::Cancelled => final(self)@ == close(old(self)@) && r
                    == ProducerAction::Stop,
            },
    {
        if self.closed || self.abandoned {
            return ProducerAction::Stop;
        }
        let ghost s0 = self@;
        match event {
            SearchEvent::Entry(raw) => {
                let rec = shape_entry(raw);
                let ghost item: StreamItem = Ok(rec);
                self.queue.push_back(Ok(rec));
                self.sent = Ghost(self.sent@.push(item));
                assert(self@ == push_item(s0, item));
                assert forall|i: int|
                    0 <= i < self@.sent.len() && (#[trigger] self@.sent[i]) is Err implies i
                    == self@.sent.len() - 1 && self@.closed by {
                    assert(s0.sent[i] is Err);
                }
                assert(self@.delivered == self@.sent.take(self@.delivered.len() as int)) by {
                    assert(s0.sent.take(s0.delivered.len() as int) =~= self@.sent.take(
                        s0.delivered.len() as int,
                    ));
                }
                assert(self@.sent =~= self@.delivered + self@.queue);
                self.producer_action()
            },
            SearchEvent::Done => {
                self.closed = true;
                ProducerAction::Stop
            },
            SearchEvent::Failed(e) => {
                let ghost item: StreamItem = Err(e);
                self.queue.push_back(Err(e));
                self.sent = Ghost(self.sent@.push(item));
                self.closed = true;
                assert(self@.delivered == self@.sent.take(self@.delivered.len() as int)) by {
                    assert(s0.sent.take(s0.delivered.len() as int) =~= self@.sent.take(
                        s0.delivered.len() as int,
                    ));
                }
                assert(self@.sent =~= self@.delivered + self@.queue);
                ProducerAction::Stop
            },
            SearchEvent::Cancelled => {
                self.closed = true;
                ProducerAction::Stop
            },
        }
    }

    /// One pull by the consumer.
    pub fn pull(&mut self) -> (r: PullOutcome)
        requires
            old(self)@.wf(),
        ensures
            final(self)@.wf(),
            (final(self)@, r) == pull_step(old(self)@),
    {
        if self.ended {
            return PullOutcome::Ended;
        }
        let ghost s0 = self@;
        match self.queue.pop_front() {
            Some(x) => {
                let ghost gx = x;
                self.delivered = Ghost(self.delivered@.push(gx));
                assert(self.queue@ =~= s0.queue.drop_first());
                assert(s0.sent[s0.delivered.len() as int] == gx);
                assert(self@.delivered =~= self@.sent.take(self@.delivered.len() as int));
                assert(self@.sent =~= self@.delivered + self@.queue);
                match x {
                    Ok(rec) => PullOutcome::Item(rec),
                    Err(e) => {
                        self.ended = true;
                        assert(s0.sent[s0.delivered.len() as int] is Err);
                        assert(self@.queue.len() == 0);
                        PullOutcome::Failed(e)
                    },
                }
            },
            None => {
                if self.closed {
                    self.ended = true;
                    PullOutcome::Ended
                } else {
                    PullOutcome::Pending
                }
            },
        }
    }

    /// The consumer gives the sequence up: buffered items are dropped and the
    /// producer is told to stop at its next step.
    pub fn abandon(&mut self)
        requires
            old(self)@.wf(),
        ensures
            final(self)@.wf(),
            final(self)@ == abandon_step(old(self)@),
    {
        self.queue.clear();
        self.closed = true;
        self.abandoned = true;
        self.ended = true;
    }
}

} // verus!
