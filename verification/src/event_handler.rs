//! The broker: subscriptions of sinks to topics, and the fan-out of events to
//! the bounded queues of the subscribed sinks.

use std::collections::VecDeque;
use vstd::prelude::*;
use vstd::string::StringExecFns;

use crate::text::str_eq;

verus! {

/// Frames that a sink holds at most; what arrives beyond that is dropped.
pub const SINK_CAPACITY: usize = 32;

/// Names a sink of an [`EventHandler`]: sinks are numbered from zero in the
/// order in which they were opened.
pub type SinkId = usize;

/// What a sink is, to the contracts: the frames it holds, oldest first, and
/// whether its connection still takes frames.
pub struct SinkModel {
    pub queue: Seq<Seq<char>>,
    pub open: bool,
}

/// The bounded queue of one client connection.
pub struct Sink {
    queue: VecDeque<String>,
    open: bool,
}

/// One subscription: the sink receives the events of the topic.
pub struct Subscription {
    topic: String,
    sink: SinkId,
}

/// The broker. It owns the sinks and the list of subscriptions, in the order
/// in which they were made.
pub struct EventHandler {
    subscriptions: Vec<Subscription>,
    sinks: Vec<Sink>,
}

/// The frame that carries `value` on `topic`: `<topic>/<value>`.
pub open spec fn frame_text(topic: Seq<char>, value: Seq<char>) -> Seq<char> {
    topic + seq!['/'] + value
}

/// A sink that was just opened.
pub open spec fn fresh_sink() -> SinkModel {
    SinkModel { queue: Seq::empty(), open: true }
}

/// The sink after `frame` was sent to it: appended if the sink is open and
/// not full, dropped otherwise.
pub open spec fn offer(sink: SinkModel, frame: Seq<char>) -> SinkModel {
    if sink.open && sink.queue.len() < SINK_CAPACITY {
        SinkModel { queue: sink.queue.push(frame), open: true }
    } else {
        sink
    }
}

/// The sink after its oldest frame was taken out.
pub open spec fn without_oldest(sink: SinkModel) -> SinkModel {
    SinkModel { queue: sink.queue.drop_first(), open: sink.open }
}

/// The sinks subscribed to `topic`, in the order of their subscriptions; a
/// sink that subscribed twice is there twice.
pub open spec fn subscribers(subscriptions: Seq<(Seq<char>, SinkId)>, topic: Seq<char>) -> Seq<
    SinkId,
>
    decreases subscriptions.len(),
{
    if subscriptions.len() == 0 {
        Seq::empty()
    } else {
        let earlier = subscribers(subscriptions.drop_last(), topic);
        if subscriptions.last().0 == topic {
            earlier.push(subscriptions.last().1)
        } else {
            earlier
        }
    }
}

/// The sinks after `frame` was sent to each of `targets` in turn.
pub open spec fn deliver(sinks: Seq<SinkModel>, targets: Seq<SinkId>, frame: Seq<char>) -> Seq<
    SinkModel,
>
    decreases targets.len(),
{
    if targets.len() == 0 {
        sinks
    } else {
        let before = deliver(sinks, targets.drop_last(), frame);
        let target = targets.last() as int;
        if target < before.len() {
            before.update(target, offer(before[target], frame))
        } else {
            before
        }
    }
}

/// The sinks after `value` was published on `topic`.
pub open spec fn publish(
    subscriptions: Seq<(Seq<char>, SinkId)>,
    sinks: Seq<SinkModel>,
    topic: Seq<char>,
    value: Seq<char>,
) -> Seq<SinkModel> {
    deliver(sinks, subscribers(subscriptions, topic), frame_text(topic, value))
}

/// How often `sink` occurs in `targets`.
pub open spec fn occurrences(targets: Seq<SinkId>, sink: SinkId) -> nat
    decreases targets.len(),
{
    if targets.len() == 0 {
        0
    } else {
        occurrences(targets.drop_last(), sink) + if targets.last() == sink {
            1nat
        } else {
            0nat
        }
    }
}

/// `count` copies of `frame`.
pub open spec fn copies(frame: Seq<char>, count: nat) -> Seq<Seq<char>> {
    Seq::new(count, |i: int| frame)
}

impl Sink {
    /// The frames held and whether the sink is open.
    pub closed spec fn model(&self) -> SinkModel {
        SinkModel { queue: self.queue@.map_values(|frame: String| frame@), open: self.open }
    }

    /// A sink holds no more than [`SINK_CAPACITY`] frames.
    pub closed spec fn wf(&self) -> bool {
        self.queue@.len() <= SINK_CAPACITY
    }
}

impl Subscription {
    /// The topic and the sink.
    pub closed spec fn model(&self) -> (Seq<char>, SinkId) {
        (self.topic@, self.sink)
    }
}

impl EventHandler {
    /// The subscriptions as pairs of topic and sink, oldest first.
    pub closed spec fn subscriptions(&self) -> Seq<(Seq<char>, SinkId)> {
        self.subscriptions@.map_values(|s: Subscription| s.model())
    }

    /// The sinks by their number.
    pub closed spec fn sinks(&self) -> Seq<SinkModel> {
        self.sinks@.map_values(|s: Sink| s.model())
    }

    /// Every subscription names a sink that exists, and no sink holds more
    /// than [`SINK_CAPACITY`] frames.
    pub closed spec fn wf(&self) -> bool {
        &&& forall|i: int|
            0 <= i < self.subscriptions@.len() ==> (#[trigger] self.subscriptions@[i]).sink
                < self.sinks@.len()
        &&& forall|i: int| 0 <= i < self.sinks@.len() ==> (#[trigger] self.sinks@[i]).wf()
    }

    /// A broker in order has a sink for every subscription, and no sink of
    /// it holds more than [`SINK_CAPACITY`] frames.
    pub proof fn lemma_sinks_are_bounded(&self)
        requires
            self.wf(),
        ensures
            forall|i: int|
                0 <= i < self.subscriptions().len() ==> (#[trigger] self.subscriptions()[i]).1
                    < self.sinks().len(),
            forall|i: int|
                0 <= i < self.sinks().len() ==> (#[trigger] self.sinks()[i]).queue.len()
                    <= SINK_CAPACITY,
    {
        assert forall|i: int| 0 <= i < self.subscriptions().len() implies (
        #[trigger] self.subscriptions()[i]).1 < self.sinks().len() by {
            assert(self.subscriptions@[i].sink < self.sinks@.len());
        }
        assert forall|i: int| 0 <= i < self.sinks().len() implies (
        #[trigger] self.sinks()[i]).queue.len() <= SINK_CAPACITY by {
            assert(self.sinks@[i].wf());
        }
    }

    /// A broker without sinks or subscriptions.
    pub fn new() -> (handler: Self)
        ensures
            handler.wf(),
            handler.subscriptions() == Seq::<(Seq<char>, SinkId)>::empty(),
            handler.sinks() == Seq::<SinkModel>::empty(),
    {
        let handler = EventHandler { subscriptions: Vec::new(), sinks: Vec::new() };
        assert(handler.subscriptions() =~= Seq::<(Seq<char>, SinkId)>::empty());
        assert(handler.sinks() =~= Seq::<SinkModel>::empty());
        handler
    }

    /// Opens the sink of a new connection: empty, and numbered after the
    /// sinks that exist.
    pub fn open_sink(&mut self) -> (sink: SinkId)
        requires
            old(self).wf(),
        ensures
            final(self).wf(),
            sink == old(self).sinks().len(),
            final(self).sinks() == old(self).sinks().push(fresh_sink()),
            final(self).subscriptions() == old(self).subscriptions(),
    {
        let sink: SinkId = self.sinks.len();
        let fresh = Sink { queue: VecDeque::new(), open: true };
        assert(fresh.model().queue =~= Seq::<Seq<char>>::empty());
        self.sinks.push(fresh);
        assert(self.sinks() =~= old(self).sinks().push(fresh_sink()));
        sink
    }

    /// Whether `sink` names a sink of this broker.
    pub fn has_sink(&self, sink: SinkId) -> (known: bool)
        ensures
            known == (sink < self.sinks().len()),
    {
        sink < self.sinks.len()
    }

    /// How many sinks were opened.
    pub fn sink_count(&self) -> (count: usize)
        ensures
            count == self.sinks().len(),
    {
        self.sinks.len()
    }

    /// Closes `sink` when its connection ends: the frames it holds are
    /// discarded and whatever is sent to it from now on is dropped. Its
    /// subscriptions stay. An unknown sink changes nothing.
    pub fn close_sink(&mut self, sink: SinkId)
        requires
            old(self).wf(),
        ensures
            final(self).wf(),
            final(self).subscriptions() == old(self).subscriptions(),
            final(self).sinks() == (if sink < old(self).sinks().len() {
                old(self).sinks().update(
                    sink as int,
                    SinkModel { queue: Seq::empty(), open: false },
                )
            } else {
                old(self).sinks()
            }),
    {
        if sink < self.sinks.len() {
            self.sinks[sink].open = false;
            self.sinks[sink].queue.clear();
            assert(self.sinks@[sink as int].model().queue =~= Seq::<Seq<char>>::empty());
            assert(self.sinks() =~= old(self).sinks().update(
                sink as int,
                SinkModel { queue: Seq::empty(), open: false },
            ));
        }
    }

    /// Whether `sink` is known and still open.
    pub fn is_open(&self, sink: SinkId) -> (open: bool)
        ensures
            open == (sink < self.sinks().len() && self.sinks()[sink as int].open),
    {
        sink < self.sinks.len() && self.sinks[sink].open
    }

    /// How many frames `sink` holds; zero for an unknown sink.
    pub fn pending(&self, sink: SinkId) -> (count: usize)
        ensures
            count == (if sink < self.sinks().len() {
                self.sinks()[sink as int].queue.len()
            } else {
                0
            }),
    {
        if sink < self.sinks.len() {
            self.sinks[sink].queue.len()
        } else {
            0
        }
    }

    /// Takes the oldest frame out of `sink`, for its connection to write.
    /// Returns `None` when the sink is unknown or holds nothing.
    pub fn next_frame(&mut self, sink: SinkId) -> (frame: Option<String>)
        requires
            old(self).wf(),
        ensures
            final(self).wf(),
            final(self).subscriptions() == old(self).subscriptions(),
            match frame {
                Some(text) => {
                    &&& sink < old(self).sinks().len()
                    &&& old(self).sinks()[sink as int].queue.len() > 0
                    &&& text@ == old(self).sinks()[sink as int].queue[0]
                    &&& final(self).sinks() == old(self).sinks().update(
                        sink as int,
                        without_oldest(old(self).sinks()[sink as int]),
                    )
                },
                None => {
                    &&& !(sink < old(self).sinks().len() && old(self).sinks()[sink as int].queue.len()
                        > 0)
                    &&& final(self).sinks() == old(self).sinks()
                },
            },
    {
        if sink < self.sinks.len() {
            let frame = self.sinks[sink].queue.pop_front();
            proof {
                if frame is Some {
                    assert(self.sinks@[sink as int].model().queue =~= old(self).sinks()[sink as int].queue.drop_first());
                    assert(self.sinks() =~= old(self).sinks().update(
                        sink as int,
                        without_oldest(old(self).sinks()[sink as int]),
                    ));
                } else {
                    assert(self.sinks@[sink as int].model().queue =~= old(self).sinks()[sink as int].queue);
                    assert(self.sinks() =~= old(self).sinks());
                }
            }
            frame
        } else {
            None
        }
    }

    /// Subscribes `client` to the topic `name`, after the subscriptions that
    /// exist. A sink that this broker did not open is not subscribed.
    pub fn add_event(&mut self, name: &str, client: SinkId)
        requires
            old(self).wf(),
        ensures
            final(self).wf(),
            final(self).sinks() == old(self).sinks(),
            final(self).subscriptions() == (if client < old(self).sinks().len() {
                old(self).subscriptions().push((name@, client))
            } else {
                old(self).subscriptions()
            }),
    {
        if client < self.sinks.len() {
            let subscription = Subscription { topic: String::from_str(name), sink: client };
            self.subscriptions.push(subscription);
            assert(self.subscriptions() =~= old(self).subscriptions().push((name@, client)));
        }
    }

    /// Publishes `data` on the topic `name`: the frame `<name>/<data>` goes
    /// to every sink subscribed to `name`, in the order of the subscriptions.
    /// A sink that is full or closed drops it; the others are not affected.
    pub fn trigger_event(&mut self, name: &str, data: &str)
        requires
            old(self).wf(),
        ensures
            final(self).wf(),
            final(self).subscriptions() == old(self).subscriptions(),
            final(self).sinks() == publish(
                old(self).subscriptions(),
                old(self).sinks(),
                name@,
                data@,
            ),
    {
        let mut frame = String::from_str(name);
        frame.append("/");
        frame.append(data);
        proof {
            reveal_strlit("/");
            assert(frame@ =~= frame_text(name@, data@));
        }
        let count: usize = self.subscriptions.len();
        let mut i: usize = 0;
        while i < count
            invariant
                i <= count,
                count == self.subscriptions@.len(),
                self.wf(),
                self.subscriptions@ == old(self).subscriptions@,
                frame@ == frame_text(name@, data@),
                self.sinks() == deliver(
                    old(self).sinks(),
                    subscribers(old(self).subscriptions().take(i as int), name@),
                    frame@,
                ),
            decreases count - i,
        {
            let ghost before = self.sinks();
            let ghost seen = old(self).subscriptions().take(i as int);
            let ghost grown = old(self).subscriptions().take(i + 1);
            proof {
                assert(grown.drop_last() =~= seen);
                assert(grown.last() == self.subscriptions@[i as int].model());
            }
            if str_eq(self.subscriptions[i].topic.as_str(), name) {
                let target: SinkId = self.subscriptions[i].sink;
                let ghost targets = subscribers(seen, name@);
                proof {
                    assert(subscribers(grown, name@) == targets.push(target));
                    assert(targets.push(target).drop_last() =~= targets);
                    assert(before.len() == self.sinks@.len());
                }
                if self.sinks[target].open && self.sinks[target].queue.len() < SINK_CAPACITY {
                    let copy = frame.clone();
                    self.sinks[target].queue.push_back(copy);
                    proof {
                        assert(self.sinks@[target as int].model().queue =~= before[target as int].queue.push(frame@));
                        assert(self.sinks() =~= before.update(
                            target as int,
                            offer(before[target as int], frame@),
                        ));
                    }
                } else {
                    assert(self.sinks() =~= before.update(
                        target as int,
                        offer(before[target as int], frame@),
                    ));
                }
            }
            i = i + 1;
        }
        assert(old(self).subscriptions().take(count as int) =~= old(self).subscriptions());
    }
}

/// Sending a frame keeps the number of sinks.
pub proof fn lemma_deliver_len(sinks: Seq<SinkModel>, targets: Seq<SinkId>, frame: Seq<char>)
    ensures
        deliver(sinks, targets, frame).len() == sinks.len(),
    decreases targets.len(),
{
    if targets.len() > 0 {
        lemma_deliver_len(sinks, targets.drop_last(), frame);
    }
}

/// Sending a frame keeps the number of sinks, never reorders or removes what
/// a sink holds, and never reopens or closes a sink: each queue grows at its
/// end by some copies of the frame, at most one for each subscription.
pub proof fn lemma_deliver_appends(
    sinks: Seq<SinkModel>,
    targets: Seq<SinkId>,
    frame: Seq<char>,
    sink: SinkId,
)
    requires
        sink < sinks.len(),
    ensures
        deliver(sinks, targets, frame).len() == sinks.len(),
        deliver(sinks, targets, frame)[sink as int].open == sinks[sink as int].open,
        exists|count: nat|
            count <= occurrences(targets, sink) && #[trigger] deliver(
                sinks,
                targets,
                frame,
            )[sink as int].queue == sinks[sink as int].queue + copies(frame, count),
    decreases targets.len(),
{
    if targets.len() == 0 {
        assert(sinks[sink as int].queue + copies(frame, 0) =~= sinks[sink as int].queue);
    } else {
        lemma_deliver_appends(sinks, targets.drop_last(), frame, sink);
        let before = deliver(sinks, targets.drop_last(), frame);
        let count = choose|count: nat|
            count <= occurrences(targets.drop_last(), sink) && #[trigger] deliver(
                sinks,
                targets.drop_last(),
                frame,
            )[sink as int].queue == sinks[sink as int].queue + copies(frame, count);
        let after = deliver(sinks, targets, frame);
        if targets.last() == sink && before[sink as int].open && before[sink as int].queue.len()
            < SINK_CAPACITY {
            assert(after[sink as int].queue =~= sinks[sink as int].queue + copies(frame, count + 1));
        } else {
            assert(after[sink as int].queue == sinks[sink as int].queue + copies(frame, count));
        }
    }
}

/// A frame reaches a sink that is open and has room for it: with as many
/// free places as it has subscriptions to the topic, the sink receives one
/// copy for each of them.
pub proof fn lemma_deliver_reaches(
    sinks: Seq<SinkModel>,
    targets: Seq<SinkId>,
    frame: Seq<char>,
    sink: SinkId,
)
    requires
        sink < sinks.len(),
        sinks[sink as int].open,
        sinks[sink as int].queue.len() + occurrences(targets, sink) <= SINK_CAPACITY,
    ensures
        deliver(sinks, targets, frame)[sink as int].queue == sinks[sink as int].queue + copies(
            frame,
            occurrences(targets, sink),
        ),
    decreases targets.len(),
{
    if targets.len() == 0 {
        assert(sinks[sink as int].queue + copies(frame, 0) =~= sinks[sink as int].queue);
    } else {
        lemma_deliver_reaches(sinks, targets.drop_last(), frame, sink);
        lemma_deliver_appends(sinks, targets.drop_last(), frame, sink);
        let before = deliver(sinks, targets.drop_last(), frame);
        let count = occurrences(targets.drop_last(), sink);
        let after = deliver(sinks, targets, frame);
        if targets.last() == sink {
            assert(after[sink as int].queue =~= sinks[sink as int].queue + copies(frame, count + 1));
        }
    }
}

/// What one sink receives does not depend on any other sink: whatever state
/// another sink is in, full, closed or empty, this sink ends up the same.
pub proof fn lemma_deliver_isolated(
    sinks: Seq<SinkModel>,
    targets: Seq<SinkId>,
    frame: Seq<char>,
    sink: SinkId,
    other: SinkId,
    state: SinkModel,
)
    requires
        sink < sinks.len(),
        other < sinks.len(),
        sink != other,
    ensures
        deliver(sinks.update(other as int, state), targets, frame)[sink as int] == deliver(
            sinks,
            targets,
            frame,
        )[sink as int],
    decreases targets.len(),
{
    if targets.len() > 0 {
        lemma_deliver_isolated(sinks, targets.drop_last(), frame, sink, other, state);
        lemma_deliver_appends(sinks, targets.drop_last(), frame, sink);
        lemma_deliver_appends(sinks.update(other as int, state), targets.drop_last(), frame, sink);
    }
}

/// A sink that is not subscribed to the topic is left as it was.
pub proof fn lemma_deliver_skips_others(
    sinks: Seq<SinkModel>,
    targets: Seq<SinkId>,
    frame: Seq<char>,
    sink: SinkId,
)
    requires
        sink < sinks.len(),
        occurrences(targets, sink) == 0,
    ensures
        deliver(sinks, targets, frame)[sink as int] == sinks[sink as int],
    decreases targets.len(),
{
    if targets.len() > 0 {
        lemma_deliver_skips_others(sinks, targets.drop_last(), frame, sink);
        lemma_deliver_appends(sinks, targets.drop_last(), frame, sink);
    }
}

/// A subscription counts: the sink of a subscription is among the
/// subscribers of the subscription's topic.
pub proof fn lemma_subscription_is_counted(subscriptions: Seq<(Seq<char>, SinkId)>, at: int)
    requires
        0 <= at < subscriptions.len(),
    ensures
        occurrences(subscribers(subscriptions, subscriptions[at].0), subscriptions[at].1) >= 1,
    decreases subscriptions.len(),
{
    let topic = subscriptions[at].0;
    let earlier = subscribers(subscriptions.drop_last(), topic);
    if at < subscriptions.len() - 1 {
        assert(subscriptions.drop_last()[at] == subscriptions[at]);
        lemma_subscription_is_counted(subscriptions.drop_last(), at);
    }
    if subscriptions.last().0 == topic {
        assert(earlier.push(subscriptions.last().1).drop_last() =~= earlier);
    }
}

/// What a sink holds after two events: what it held, then copies of the
/// first frame, then copies of the second.
pub open spec fn grown_queue(
    held: Seq<Seq<char>>,
    first_frame: Seq<char>,
    first_count: nat,
    second_frame: Seq<char>,
    second_count: nat,
) -> Seq<Seq<char>> {
    held + copies(first_frame, first_count) + copies(second_frame, second_count)
}

/// Events reach a sink in the order in which they were published: after two
/// events the sink holds what it held, then copies of the first frame, then
/// copies of the second, and nothing else.
pub proof fn lemma_publish_keeps_order(
    subscriptions: Seq<(Seq<char>, SinkId)>,
    sinks: Seq<SinkModel>,
    first_topic: Seq<char>,
    first_value: Seq<char>,
    second_topic: Seq<char>,
    second_value: Seq<char>,
    sink: SinkId,
)
    requires
        sink < sinks.len(),
    ensures
        ({
            let after_first = publish(subscriptions, sinks, first_topic, first_value);
            let after_second = publish(subscriptions, after_first, second_topic, second_value);
            exists|first_count: nat, second_count: nat|
                after_second[sink as int].queue == #[trigger] grown_queue(
                    sinks[sink as int].queue,
                    frame_text(first_topic, first_value),
                    first_count,
                    frame_text(second_topic, second_value),
                    second_count,
                )
        }),
{
    let first_frame = frame_text(first_topic, first_value);
    let second_frame = frame_text(second_topic, second_value);
    let first_targets = subscribers(subscriptions, first_topic);
    let second_targets = subscribers(subscriptions, second_topic);
    let after_first = deliver(sinks, first_targets, first_frame);
    let after_second = deliver(after_first, second_targets, second_frame);
    lemma_deliver_appends(sinks, first_targets, first_frame, sink);
    lemma_deliver_appends(after_first, second_targets, second_frame, sink);
    let first_count = choose|count: nat|
        count <= occurrences(first_targets, sink) && #[trigger] deliver(
            sinks,
            first_targets,
            first_frame,
        )[sink as int].queue == sinks[sink as int].queue + copies(first_frame, count);
    let second_count = choose|count: nat|
        count <= occurrences(second_targets, sink) && #[trigger] deliver(
            after_first,
            second_targets,
            second_frame,
        )[sink as int].queue == after_first[sink as int].queue + copies(second_frame, count);
    assert(after_second[sink as int].queue == grown_queue(
        sinks[sink as int].queue,
        first_frame,
        first_count,
        second_frame,
        second_count,
    ));
}

} // verus!
