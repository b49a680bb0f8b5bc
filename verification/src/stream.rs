//! Ingestion from streams: what the task that drains one stream does with
//! each thing it receives, and what holds of the store whatever way the
//! streams interleave.
//!
//! A stream is an ordered channel of points with one consumer, the task that
//! drains it. The task waits on the channel and hands each event to
//! [`StreamIngestor::on_event`] while it holds the lock of the store. The
//! appends of all tasks therefore happen one after the other, in some order
//! that no task controls: a sequence of [`Arrival`]s.

use crate::point::Point;
use crate::store::PointStore;
use vstd::prelude::*;

verus! {

/// What the draining task finds on its channel.
#[derive(Debug, Clone, Copy, PartialEq, Eq, Structural)]
pub enum StreamEvent {
    /// A point has arrived.
    Received(Point),
    /// Every sender is gone: no point will arrive any more.
    Closed,
}

/// What the draining task does next.
#[derive(Debug, Clone, Copy, PartialEq, Eq, Structural)]
pub enum DrainStep {
    /// Wait for the next event.
    Continue,
    /// End the task.
    Exit,
}

/// The state of the task that drains one stream.
#[derive(Debug, Clone, Copy)]
pub struct StreamIngestor {
    id: usize,
    open: bool,
}

/// What an ingestor is, as plain values.
pub struct StreamIngestorView {
    /// The number under which the stream was registered.
    pub id: usize,
    /// Whether the stream may still deliver points.
    pub open: bool,
}

impl StreamIngestorView {
    /// What an event adds to the store: the point, if one arrived while the
    /// stream was open, and nothing otherwise.
    pub open spec fn arrivals(self, event: StreamEvent) -> Seq<Arrival> {
        match event {
            StreamEvent::Received(point) if self.open => seq![
                Arrival { stream: self.id as nat, point },
            ],
            _ => Seq::empty(),
        }
    }
}

impl View for StreamIngestor {
    type V = StreamIngestorView;

    closed spec fn view(&self) -> StreamIngestorView {
        StreamIngestorView { id: self.id, open: self.open }
    }
}

impl StreamIngestor {
    /// The ingestor of a stream that was just registered under `id`.
    pub fn new(id: usize) -> (ingestor: Self)
        ensures
            ingestor@ == (StreamIngestorView { id, open: true }),
    {
        StreamIngestor { id, open: true }
    }

    /// The number under which the stream was registered.
    pub fn id(&self) -> (id: usize)
        ensures
            id == self@.id,
    {
        self.id
    }

    /// Whether the stream may still deliver points.
    pub fn is_open(&self) -> (open: bool)
        ensures
            open == self@.open,
    {
        self.open
    }

    /// Handles one event. A point that arrives on an open stream goes to the
    /// end of the store, and the task goes on. When the stream closes the
    /// task ends, which is no error; the store is left as it is. A stream
    /// that has closed delivers nothing more.
    pub fn on_event(&mut self, store: &mut PointStore, event: StreamEvent) -> (step: DrainStep)
        ensures
            final(self)@.id == old(self)@.id,
            old(store)@.is_prefix_of(final(store)@),
            final(store)@ == ingest(old(store)@, old(self)@.arrivals(event)),
            match event {
                StreamEvent::Received(point) if old(self)@.open => {
                    &&& step == DrainStep::Continue
                    &&& final(self)@.open
                    &&& final(store)@ == old(store)@.push(point)
                },
                _ => {
                    &&& step == DrainStep::Exit
                    &&& !final(self)@.open
                    &&& final(store)@ == old(store)@
                },
            },
    {
        proof {
            lemma_ingest_one(store@, old(self)@.arrivals(event));
        }
        if !self.open {
            return DrainStep::Exit;
        }
        match event {
            StreamEvent::Received(point) => {
                store.append(point);
                DrainStep::Continue
            },
            StreamEvent::Closed => {
                self.open = false;
                DrainStep::Exit
            },
        }
    }
}

/// One append to the store by a draining task: the stream that the point
/// came from, and the point.
pub struct Arrival {
    pub stream: nat,
    pub point: Point,
}

/// The store after the arrivals were appended to it one by one, in their
/// order.
pub open spec fn ingest(store: Seq<Point>, arrivals: Seq<Arrival>) -> Seq<Point>
    decreases arrivals.len(),
{
    if arrivals.len() == 0 {
        store
    } else {
        ingest(store, arrivals.drop_last()).push(arrivals.last().point)
    }
}

/// The points that came from one stream, in the order in which they were
/// appended.
pub open spec fn sent_by(arrivals: Seq<Arrival>, stream: nat) -> Seq<Point>
    decreases arrivals.len(),
{
    if arrivals.len() == 0 {
        Seq::empty()
    } else if arrivals.last().stream == stream {
        sent_by(arrivals.drop_last(), stream).push(arrivals.last().point)
    } else {
        sent_by(arrivals.drop_last(), stream)
    }
}

/// The places, among all arrivals, of those that came from one stream.
pub open spec fn places_of(arrivals: Seq<Arrival>, stream: nat) -> Seq<int>
    decreases arrivals.len(),
{
    if arrivals.len() == 0 {
        Seq::empty()
    } else if arrivals.last().stream == stream {
        places_of(arrivals.drop_last(), stream).push(arrivals.len() - 1)
    } else {
        places_of(arrivals.drop_last(), stream)
    }
}

/// The number of arrivals that came from the streams `0` to `streams - 1`.
pub open spec fn sent_by_first(arrivals: Seq<Arrival>, streams: nat) -> nat
    decreases streams,
{
    if streams == 0 {
        0
    } else {
        sent_by_first(arrivals, (streams - 1) as nat) + sent_by(
            arrivals,
            (streams - 1) as nat,
        ).len()
    }
}

/// What at most one arrival does to the store.
proof fn lemma_ingest_one(store: Seq<Point>, arrivals: Seq<Arrival>)
    requires
        arrivals.len() <= 1,
    ensures
        arrivals.len() == 0 ==> ingest(store, arrivals) == store,
        arrivals.len() == 1 ==> ingest(store, arrivals) == store.push(arrivals[0].point),
{
    if arrivals.len() == 1 {
        assert(ingest(store, arrivals.drop_last()) == store);
    }
}

/// Appends in turns add up: what arrives first and what arrives afterwards
/// leave the store as all of it would in one run.
pub proof fn lemma_ingest_in_turns(store: Seq<Point>, first: Seq<Arrival>, then: Seq<Arrival>)
    ensures
        ingest(ingest(store, first), then) == ingest(store, first + then),
    decreases then.len(),
{
    if then.len() == 0 {
        assert(first + then =~= first);
    } else {
        lemma_ingest_in_turns(store, first, then.drop_last());
        assert((first + then).drop_last() =~= first + then.drop_last());
        assert((first + then).last() == then.last());
    }
}

/// Appending arrivals adds exactly one entry for each, at the end and in
/// their order; what the store held before stays in front.
pub proof fn lemma_ingest_appends(store: Seq<Point>, arrivals: Seq<Arrival>)
    ensures
        ingest(store, arrivals).len() == store.len() + arrivals.len(),
        store.is_prefix_of(ingest(store, arrivals)),
        forall|i: int|
            0 <= i < arrivals.len() ==> #[trigger] ingest(store, arrivals)[store.len() + i]
                == arrivals[i].point,
    decreases arrivals.len(),
{
    if arrivals.len() > 0 {
        lemma_ingest_appends(store, arrivals.drop_last());
        let shorter = ingest(store, arrivals.drop_last());
        assert forall|i: int| 0 <= i < arrivals.len() implies #[trigger] ingest(
            store,
            arrivals,
        )[store.len() + i] == arrivals[i].point by {
            if i < arrivals.len() - 1 {
                assert(shorter[store.len() + i] == arrivals.drop_last()[i].point);
            }
        }
    }
}

/// The order of one stream is kept, whatever the other streams do. The
/// points of a stream stand in the store at increasing places, one place
/// for each point, in the order in which the stream delivered them.
pub proof fn lemma_stream_order_is_kept(store: Seq<Point>, arrivals: Seq<Arrival>, stream: nat)
    ensures
        places_of(arrivals, stream).len() == sent_by(arrivals, stream).len(),
        forall|k: int|
            0 <= k < sent_by(arrivals, stream).len() ==> {
                let place = #[trigger] places_of(arrivals, stream)[k];
                &&& 0 <= place < arrivals.len()
                &&& arrivals[place].stream == stream
                &&& ingest(store, arrivals)[store.len() + place] == sent_by(arrivals, stream)[k]
            },
        forall|j: int, k: int|
            0 <= j < k < sent_by(arrivals, stream).len() ==> #[trigger] places_of(
                arrivals,
                stream,
            )[j] < #[trigger] places_of(arrivals, stream)[k],
    decreases arrivals.len(),
{
    lemma_ingest_appends(store, arrivals);
    if arrivals.len() > 0 {
        let shorter = arrivals.drop_last();
        lemma_stream_order_is_kept(store, shorter, stream);
        lemma_ingest_appends(store, shorter);
        let places = places_of(arrivals, stream);
        let sent = sent_by(arrivals, stream);
        assert forall|k: int| 0 <= k < sent.len() implies {
            let place = #[trigger] places[k];
            &&& 0 <= place < arrivals.len()
            &&& arrivals[place].stream == stream
            &&& ingest(store, arrivals)[store.len() + place] == sent[k]
        } by {
            if k < sent_by(shorter, stream).len() {
                let place = places_of(shorter, stream)[k];
                assert(places[k] == place);
                assert(arrivals[place] == shorter[place]);
                assert(ingest(store, shorter)[store.len() + place] == shorter[place].point);
            }
        }
        assert forall|j: int, k: int| 0 <= j < k < sent.len() implies #[trigger] places[j]
            < #[trigger] places[k] by {
            if k < sent_by(shorter, stream).len() {
                assert(places[j] == places_of(shorter, stream)[j]);
                assert(places[k] == places_of(shorter, stream)[k]);
            } else {
                assert(places[j] == places_of(shorter, stream)[j]);
            }
        }
    }
}

/// Every arrival has a place among the points of its own stream: none is
/// lost.
pub proof fn lemma_every_arrival_is_placed(arrivals: Seq<Arrival>, i: int)
    requires
        0 <= i < arrivals.len(),
    ensures
        exists|k: int|
            0 <= k < places_of(arrivals, arrivals[i].stream).len() && #[trigger] places_of(
                arrivals,
                arrivals[i].stream,
            )[k] == i,
    decreases arrivals.len(),
{
    let stream = arrivals[i].stream;
    let places = places_of(arrivals, stream);
    let shorter = arrivals.drop_last();
    if i == arrivals.len() - 1 {
        let k = places.len() - 1;
        assert(places[k] == i);
    } else {
        lemma_every_arrival_is_placed(shorter, i);
        assert(shorter[i] == arrivals[i]);
        let k = choose|k: int|
            0 <= k < places_of(shorter, stream).len() && #[trigger] places_of(shorter, stream)[k]
                == i;
        assert(places[k] == i);
    }
}

/// An arrival counts for the streams below `streams` exactly if its own
/// stream is one of them.
proof fn lemma_sent_by_first_step(arrivals: Seq<Arrival>, streams: nat)
    requires
        arrivals.len() > 0,
    ensures
        sent_by_first(arrivals, streams) == sent_by_first(arrivals.drop_last(), streams) + (if arrivals.last().stream
            < streams {
            1nat
        } else {
            0nat
        }),
    decreases streams,
{
    if streams > 0 {
        lemma_sent_by_first_step(arrivals, (streams - 1) as nat);
    }
}

/// The streams `0` to `streams - 1` together sent as many points as arrived,
/// if every arrival came from one of them.
pub proof fn lemma_arrivals_are_counted_once(arrivals: Seq<Arrival>, streams: nat)
    requires
        forall|i: int| 0 <= i < arrivals.len() ==> (#[trigger] arrivals[i]).stream < streams,
    ensures
        sent_by_first(arrivals, streams) == arrivals.len(),
    decreases arrivals.len(),
{
    if arrivals.len() == 0 {
        assert(arrivals =~= Seq::<Arrival>::empty());
        lemma_nothing_sent(streams);
    } else {
        let shorter = arrivals.drop_last();
        assert forall|i: int| 0 <= i < shorter.len() implies (#[trigger] shorter[i]).stream
            < streams by {
            assert(shorter[i] == arrivals[i]);
        }
        lemma_arrivals_are_counted_once(shorter, streams);
        lemma_sent_by_first_step(arrivals, streams);
        assert(arrivals.last() == arrivals[arrivals.len() - 1]);
    }
}

/// Without arrivals no stream has sent anything.
proof fn lemma_nothing_sent(streams: nat)
    ensures
        sent_by_first(Seq::<Arrival>::empty(), streams) == 0,
    decreases streams,
{
    if streams > 0 {
        lemma_nothing_sent((streams - 1) as nat);
    }
}

/// Streams that sent `each` points apiece sent `streams * each` together.
proof fn lemma_equal_shares(arrivals: Seq<Arrival>, streams: nat, each: nat)
    requires
        forall|s: nat| s < streams ==> (#[trigger] sent_by(arrivals, s)).len() == each,
    ensures
        sent_by_first(arrivals, streams) == streams * each,
    decreases streams,
{
    if streams > 0 {
        lemma_equal_shares(arrivals, (streams - 1) as nat, each);
        assert(sent_by(arrivals, (streams - 1) as nat).len() == each);
        assert(streams * each == (streams - 1) * each + each) by (nonlinear_arith)
            requires
                streams > 0,
        ;
    } else {
        assert(streams * each == 0) by (nonlinear_arith)
            requires
                streams == 0,
        ;
    }
}

/// Producers that append at the same time lose nothing and double nothing.
/// When `producers` streams deliver `each` points apiece, in whatever order
/// their appends take turns, the store grows by exactly `producers * each`
/// entries, and these are the arrivals, each once, in the order of the
/// turns.
pub proof fn lemma_concurrent_appends_all_arrive(
    store: Seq<Point>,
    arrivals: Seq<Arrival>,
    producers: nat,
    each: nat,
)
    requires
        forall|i: int| 0 <= i < arrivals.len() ==> (#[trigger] arrivals[i]).stream < producers,
        forall|s: nat| s < producers ==> (#[trigger] sent_by(arrivals, s)).len() == each,
    ensures
        ingest(store, arrivals).len() == store.len() + producers * each,
        arrivals.len() == producers * each,
        store.is_prefix_of(ingest(store, arrivals)),
        forall|i: int|
            0 <= i < arrivals.len() ==> #[trigger] ingest(store, arrivals)[store.len() + i]
                == arrivals[i].point,
{
    lemma_ingest_appends(store, arrivals);
    lemma_arrivals_are_counted_once(arrivals, producers);
    lemma_equal_shares(arrivals, producers, each);
}

} // verus!
