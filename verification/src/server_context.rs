//! The registry of the contexts by name, and the router of the requests:
//! calls go to the context that the request names, subscriptions go to the
//! broker, and what a context has to publish goes out under its name.

use vstd::prelude::*;
use vstd::string::StringExecFns;

use crate::context::{
    action_model, emitted, probe_model, Action, ActionModel, ContextError, Emission,
    Probe, Reading, RsbarContextContent,
};
use crate::event_handler::{
    copies, frame_text, fresh_sink, lemma_deliver_appends, lemma_deliver_len,
    lemma_deliver_reaches, lemma_subscription_is_counted, occurrences, publish, subscribers,
    without_oldest, EventHandler, SinkId, SinkModel, SINK_CAPACITY,
};
use crate::request::{
    part_texts, request_parts, split_request, CALL_REQUEST_PARTS, EVENT_REQUEST_PARTS,
};
use crate::text::{has_prefix, str_eq};

verus! {

/// Milliseconds between two updates of the contexts.
pub const POLLING_INTERVAL: u64 = 1000;

/// The path of the socket on which calls arrive.
pub fn call_socket_path() -> (path: &'static str)
    ensures
        path@ == "/tmp/rsbar_call.sock"@,
{
    "/tmp/rsbar_call.sock"
}

/// The path of the socket on which subscriptions arrive and events leave.
pub fn event_socket_path() -> (path: &'static str)
    ensures
        path@ == "/tmp/rsbar_event.sock"@,
{
    "/tmp/rsbar_event.sock"
}

/// Why the registry refused an operation.
#[derive(Clone, Copy, Debug, PartialEq, Eq, Structural)]
pub enum ServerError {
    /// The request has the wrong number of parts.
    Malformed,
    /// No context is registered under the name.
    UnknownContext,
    /// The sink was not opened by this registry.
    UnknownSink,
    /// There is not one reading for each context.
    ReadingsMismatch,
    /// The action of the call failed outside.
    ExternalFailure,
    /// The context refused.
    Context(ContextError),
}

/// A call that a context accepted and whose action is still to be
/// performed: the position of the context, and the action.
#[derive(Debug, PartialEq, Eq)]
pub struct PendingCall {
    pub context: usize,
    pub action: Action,
}

/// The contexts by the name under which each is registered, in the order
/// of their registration, and the broker that serves them all.
pub struct ServerContext<C: RsbarContextContent> {
    names: Vec<String>,
    contexts: Vec<C>,
    event_handler: EventHandler,
}

/// The topic of a parameter of the context registered as `name`.
pub open spec fn topic_of(name: Seq<char>, parameter: Seq<char>) -> Seq<char> {
    name + seq!['/'] + parameter
}

/// The frame that publishes a pair of parameter and value of the context
/// registered as `name`.
pub open spec fn pair_frame(name: Seq<char>, pair: (Seq<char>, Seq<char>)) -> Seq<char> {
    frame_text(topic_of(name, pair.0), pair.1)
}

/// The sinks after the context registered as `name` published the pairs of
/// parameter and value, one after the other.
pub open spec fn publish_all(
    subscriptions: Seq<(Seq<char>, SinkId)>,
    sinks: Seq<SinkModel>,
    name: Seq<char>,
    pairs: Seq<(Seq<char>, Seq<char>)>,
) -> Seq<SinkModel>
    decreases pairs.len(),
{
    if pairs.len() == 0 {
        sinks
    } else {
        publish(
            subscriptions,
            publish_all(subscriptions, sinks, name, pairs.drop_last()),
            topic_of(name, pairs.last().0),
            pairs.last().1,
        )
    }
}

/// The position of `name` among `names`.
pub open spec fn position_of(names: Seq<Seq<char>>, name: Seq<char>) -> Option<int>
    decreases names.len(),
{
    if names.len() == 0 {
        None
    } else if names.last() == name {
        Some(names.len() - 1)
    } else {
        position_of(names.drop_last(), name)
    }
}

/// No name occurs twice.
pub open spec fn distinct(names: Seq<Seq<char>>) -> bool {
    forall|i: int, j: int| 0 <= i < j < names.len() ==> names[i] != names[j]
}

/// `frame` publishes one of the pairs under `name`.
pub open spec fn is_frame_of(
    frame: Seq<char>,
    name: Seq<char>,
    pairs: Seq<(Seq<char>, Seq<char>)>,
) -> bool {
    exists|j: int| 0 <= j < pairs.len() && #[trigger] pair_frame(name, pairs[j]) == frame
}

/// The first of the contexts before `upto` that refuses its reading on
/// `init`.
pub open spec fn first_init_refusal<C: RsbarContextContent>(
    contexts: Seq<C::Model>,
    readings: Seq<Reading>,
    upto: int,
) -> Option<int>
    decreases upto,
{
    if upto <= 0 {
        None
    } else {
        match first_init_refusal::<C>(contexts, readings, upto - 1) {
            Some(i) => Some(i),
            None => if C::on_init(contexts[upto - 1], readings[upto - 1]).result is Err {
                Some(upto - 1)
            } else {
                None
            },
        }
    }
}

/// The first of the contexts before `upto` that refuses its reading on
/// `update`.
pub open spec fn first_update_refusal<C: RsbarContextContent>(
    contexts: Seq<C::Model>,
    readings: Seq<Reading>,
    upto: int,
) -> Option<int>
    decreases upto,
{
    if upto <= 0 {
        None
    } else {
        match first_update_refusal::<C>(contexts, readings, upto - 1) {
            Some(i) => Some(i),
            None => if C::on_update(contexts[upto - 1], readings[upto - 1]).result is Err {
                Some(upto - 1)
            } else {
                None
            },
        }
    }
}

/// How many contexts are reached when the first refusal ends the round:
/// all of them, or those up to and with the one that refused.
pub open spec fn reached(stop: Option<int>, count: int) -> int {
    match stop {
        Some(k) => k + 1,
        None => count,
    }
}

/// The contexts after `init` was called on those before `upto`, each with
/// its reading.
pub open spec fn initialised<C: RsbarContextContent>(
    contexts: Seq<C::Model>,
    readings: Seq<Reading>,
    upto: int,
) -> Seq<C::Model> {
    Seq::new(
        contexts.len(),
        |i: int|
            if i < upto {
                C::on_init(contexts[i], readings[i]).state
            } else {
                contexts[i]
            },
    )
}

/// The contexts after `update` was called on those before `upto`, each
/// with its reading.
pub open spec fn updated<C: RsbarContextContent>(
    contexts: Seq<C::Model>,
    readings: Seq<Reading>,
    upto: int,
) -> Seq<C::Model> {
    Seq::new(
        contexts.len(),
        |i: int|
            if i < upto {
                C::on_update(contexts[i], readings[i]).state
            } else {
                contexts[i]
            },
    )
}

/// The sinks after one context, registered as `name`, was updated with a
/// reading: if the update publishes, every parameter of the context has
/// gone out at its new value.
pub open spec fn sinks_after_update<C: RsbarContextContent>(
    subscriptions: Seq<(Seq<char>, SinkId)>,
    sinks: Seq<SinkModel>,
    name: Seq<char>,
    context: C::Model,
    reading: Reading,
) -> Seq<SinkModel> {
    let outcome = C::on_update(context, reading);
    if outcome.result == Ok::<bool, ContextError>(true) {
        publish_all(subscriptions, sinks, name, C::snapshot(outcome.state))
    } else {
        sinks
    }
}

/// The sinks after the contexts before `upto` were updated in turn, each
/// with its reading, and each that publishes has published.
pub open spec fn updated_sinks<C: RsbarContextContent>(
    subscriptions: Seq<(Seq<char>, SinkId)>,
    sinks: Seq<SinkModel>,
    names: Seq<Seq<char>>,
    contexts: Seq<C::Model>,
    readings: Seq<Reading>,
    upto: int,
) -> Seq<SinkModel>
    decreases upto,
{
    if upto <= 0 {
        sinks
    } else {
        sinks_after_update::<C>(
            subscriptions,
            updated_sinks::<C>(subscriptions, sinks, names, contexts, readings, upto - 1),
            names[upto - 1],
            contexts[upto - 1],
            readings[upto - 1],
        )
    }
}

/// What the registry answers for what a context answered to an update.
pub open spec fn update_answer(result: Result<bool, ContextError>) -> Result<bool, ServerError> {
    match result {
        Ok(published) => Ok(published),
        Err(e) => Err(ServerError::Context(e)),
    }
}

/// What the registry answers for the first refusal of a round, if there
/// was one.
pub open spec fn round_answer<T>(refusal: Option<Result<T, ContextError>>) -> Result<
    (),
    ServerError,
> {
    match refusal {
        Some(Err(e)) => Err(ServerError::Context(e)),
        _ => Ok(()),
    }
}

/// A refusal that is the first before one position is the first before
/// every later position.
pub proof fn lemma_init_refusal_stays<C: RsbarContextContent>(
    contexts: Seq<C::Model>,
    readings: Seq<Reading>,
    at: int,
    upto: int,
)
    requires
        0 <= at < upto,
        first_init_refusal::<C>(contexts, readings, at) is None,
        C::on_init(contexts[at], readings[at]).result is Err,
    ensures
        first_init_refusal::<C>(contexts, readings, upto) == Some(at),
    decreases upto - at,
{
    if upto > at + 1 {
        lemma_init_refusal_stays::<C>(contexts, readings, at, upto - 1);
    }
}

/// A refusal that is the first before one position is the first before
/// every later position.
pub proof fn lemma_update_refusal_stays<C: RsbarContextContent>(
    contexts: Seq<C::Model>,
    readings: Seq<Reading>,
    at: int,
    upto: int,
)
    requires
        0 <= at < upto,
        first_update_refusal::<C>(contexts, readings, at) is None,
        C::on_update(contexts[at], readings[at]).result is Err,
    ensures
        first_update_refusal::<C>(contexts, readings, upto) == Some(at),
    decreases upto - at,
{
    if upto > at + 1 {
        lemma_update_refusal_stays::<C>(contexts, readings, at, upto - 1);
    }
}

/// What `position_of` finds.
pub proof fn lemma_position_of(names: Seq<Seq<char>>, name: Seq<char>)
    ensures
        match position_of(names, name) {
            Some(i) => 0 <= i < names.len() && names[i] == name,
            None => forall|i: int| 0 <= i < names.len() ==> names[i] != name,
        },
    decreases names.len(),
{
    if names.len() > 0 && names.last() != name {
        lemma_position_of(names.drop_last(), name);
        if position_of(names, name) is None {
            assert forall|i: int| 0 <= i < names.len() implies names[i] != name by {
                if i < names.len() - 1 {
                    assert(names.drop_last()[i] == names[i]);
                }
            }
        }
    }
}

/// Every topic of a context begins with the name under which the context
/// is registered, and a slash.
pub proof fn lemma_topic_is_owned(name: Seq<char>, parameter: Seq<char>)
    ensures
        has_prefix(topic_of(name, parameter), name + seq!['/']),
{
    let topic = topic_of(name, parameter);
    assert(topic.subrange(0, (name + seq!['/']).len() as int) =~= name + seq!['/']);
}

/// Publishing keeps the number of sinks.
pub proof fn lemma_publish_all_len(
    subscriptions: Seq<(Seq<char>, SinkId)>,
    sinks: Seq<SinkModel>,
    name: Seq<char>,
    pairs: Seq<(Seq<char>, Seq<char>)>,
)
    ensures
        publish_all(subscriptions, sinks, name, pairs).len() == sinks.len(),
    decreases pairs.len(),
{
    if pairs.len() > 0 {
        lemma_publish_all_len(subscriptions, sinks, name, pairs.drop_last());
        lemma_deliver_len(
            publish_all(subscriptions, sinks, name, pairs.drop_last()),
            subscribers(subscriptions, topic_of(name, pairs.last().0)),
            pair_frame(name, pairs.last()),
        );
    }
}

/// What a context publishes reaches the sinks only as frames of its own
/// topics: a sink keeps what it held, in order, and every frame that it
/// holds beyond that is `<name>/<parameter>/<value>` for one of the pairs
/// that the context published.
pub proof fn lemma_published_frames_are_owned(
    subscriptions: Seq<(Seq<char>, SinkId)>,
    sinks: Seq<SinkModel>,
    name: Seq<char>,
    pairs: Seq<(Seq<char>, Seq<char>)>,
    sink: SinkId,
)
    requires
        sink < sinks.len(),
    ensures
        ({
            let after = publish_all(subscriptions, sinks, name, pairs);
            let held = sinks[sink as int].queue.len() as int;
            &&& after.len() == sinks.len()
            &&& after[sink as int].open == sinks[sink as int].open
            &&& after[sink as int].queue.len() >= held
            &&& after[sink as int].queue.take(held) == sinks[sink as int].queue
            &&& forall|k: int|
                held <= k < after[sink as int].queue.len() ==> is_frame_of(
                    #[trigger] after[sink as int].queue[k],
                    name,
                    pairs,
                )
        }),
    decreases pairs.len(),
{
    let held = sinks[sink as int].queue.len() as int;
    if pairs.len() == 0 {
        assert(sinks[sink as int].queue.take(held) =~= sinks[sink as int].queue);
    } else {
        let earlier = pairs.drop_last();
        let middle = publish_all(subscriptions, sinks, name, earlier);
        lemma_published_frames_are_owned(subscriptions, sinks, name, earlier, sink);
        let frame = pair_frame(name, pairs.last());
        let targets = subscribers(subscriptions, topic_of(name, pairs.last().0));
        lemma_deliver_appends(middle, targets, frame, sink);
        let after = publish_all(subscriptions, sinks, name, pairs);
        let reached = middle[sink as int].queue.len() as int;
        assert(after[sink as int].queue.take(held) =~= middle[sink as int].queue.take(held));
        assert forall|k: int| held <= k < after[sink as int].queue.len() implies is_frame_of(
            #[trigger] after[sink as int].queue[k],
            name,
            pairs,
        ) by {
            if k < reached {
                assert(after[sink as int].queue[k] == middle[sink as int].queue[k]);
                let j = choose|j: int|
                    0 <= j < earlier.len() && #[trigger] pair_frame(name, earlier[j])
                        == middle[sink as int].queue[k];
                assert(pair_frame(name, pairs[j]) == after[sink as int].queue[k]);
            } else {
                assert(pair_frame(name, pairs[pairs.len() - 1]) == after[sink as int].queue[k]);
            }
        }
    }
}

/// The frames that go to `sink` when the context registered as `name`
/// publishes the pairs: for each pair in turn, one copy for each
/// subscription of the sink to the pair's topic.
pub open spec fn deliveries(
    subscriptions: Seq<(Seq<char>, SinkId)>,
    name: Seq<char>,
    pairs: Seq<(Seq<char>, Seq<char>)>,
    sink: SinkId,
) -> Seq<Seq<char>>
    decreases pairs.len(),
{
    if pairs.len() == 0 {
        Seq::empty()
    } else {
        deliveries(subscriptions, name, pairs.drop_last(), sink) + copies(
            pair_frame(name, pairs.last()),
            occurrences(subscribers(subscriptions, topic_of(name, pairs.last().0)), sink),
        )
    }
}

/// A subscriber with room misses nothing: a sink that is open and has a
/// free place for every frame that is due to it receives each of them, in
/// the order of publishing, behind what it held.
pub proof fn lemma_subscriber_with_room_receives_all(
    subscriptions: Seq<(Seq<char>, SinkId)>,
    sinks: Seq<SinkModel>,
    name: Seq<char>,
    pairs: Seq<(Seq<char>, Seq<char>)>,
    sink: SinkId,
)
    requires
        sink < sinks.len(),
        sinks[sink as int].open,
        sinks[sink as int].queue.len() + deliveries(subscriptions, name, pairs, sink).len()
            <= SINK_CAPACITY,
    ensures
        publish_all(subscriptions, sinks, name, pairs)[sink as int].open,
        publish_all(subscriptions, sinks, name, pairs)[sink as int].queue
            == sinks[sink as int].queue + deliveries(subscriptions, name, pairs, sink),
    decreases pairs.len(),
{
    if pairs.len() == 0 {
        assert(sinks[sink as int].queue + Seq::<Seq<char>>::empty() =~= sinks[sink as int].queue);
    } else {
        let earlier = pairs.drop_last();
        let middle = publish_all(subscriptions, sinks, name, earlier);
        let frame = pair_frame(name, pairs.last());
        let targets = subscribers(subscriptions, topic_of(name, pairs.last().0));
        lemma_subscriber_with_room_receives_all(subscriptions, sinks, name, earlier, sink);
        lemma_publish_all_len(subscriptions, sinks, name, earlier);
        lemma_deliver_reaches(middle, targets, frame, sink);
        lemma_deliver_appends(middle, targets, frame, sink);
        assert(sinks[sink as int].queue + deliveries(subscriptions, name, earlier, sink) + copies(
            frame,
            occurrences(targets, sink),
        ) =~= sinks[sink as int].queue + deliveries(subscriptions, name, pairs, sink));
    }
}

/// A sink that is subscribed to the topic of one of the pairs is due the
/// frame of that pair.
pub proof fn lemma_deliveries_hold_frame(
    subscriptions: Seq<(Seq<char>, SinkId)>,
    name: Seq<char>,
    pairs: Seq<(Seq<char>, Seq<char>)>,
    sink: SinkId,
    j: int,
)
    requires
        0 <= j < pairs.len(),
        occurrences(subscribers(subscriptions, topic_of(name, pairs[j].0)), sink) >= 1,
    ensures
        exists|k: int|
            0 <= k < deliveries(subscriptions, name, pairs, sink).len() && #[trigger] deliveries(
                subscriptions,
                name,
                pairs,
                sink,
            )[k] == pair_frame(name, pairs[j]),
    decreases pairs.len(),
{
    let earlier = deliveries(subscriptions, name, pairs.drop_last(), sink);
    let all = deliveries(subscriptions, name, pairs, sink);
    if j == pairs.len() - 1 {
        assert(all[earlier.len() as int] == pair_frame(name, pairs[j]));
    } else {
        assert(pairs.drop_last()[j] == pairs[j]);
        lemma_deliveries_hold_frame(subscriptions, name, pairs.drop_last(), sink, j);
        let k = choose|k: int|
            0 <= k < earlier.len() && #[trigger] earlier[k] == pair_frame(name, pairs[j]);
        assert(all[k] == pair_frame(name, pairs[j]));
    }
}

/// A subscriber receives what it subscribed to: when a context publishes
/// its pairs, a sink that is open, is subscribed to the topic of one of the
/// pairs, and has a free place for every frame that is due to it, holds the
/// frame of that pair afterwards, behind what it held.
pub proof fn lemma_subscriber_receives_topic(
    subscriptions: Seq<(Seq<char>, SinkId)>,
    sinks: Seq<SinkModel>,
    name: Seq<char>,
    pairs: Seq<(Seq<char>, Seq<char>)>,
    j: int,
    at: int,
)
    requires
        0 <= j < pairs.len(),
        0 <= at < subscriptions.len(),
        subscriptions[at].0 == topic_of(name, pairs[j].0),
        subscriptions[at].1 < sinks.len(),
        sinks[subscriptions[at].1 as int].open,
        sinks[subscriptions[at].1 as int].queue.len() + deliveries(
            subscriptions,
            name,
            pairs,
            subscriptions[at].1,
        ).len() <= SINK_CAPACITY,
    ensures
        ({
            let sink = subscriptions[at].1 as int;
            let after = publish_all(subscriptions, sinks, name, pairs);
            exists|k: int|
                sinks[sink].queue.len() <= k < after[sink].queue.len()
                    && #[trigger] after[sink].queue[k] == pair_frame(name, pairs[j])
        }),
{
    let sink = subscriptions[at].1;
    let due = deliveries(subscriptions, name, pairs, sink);
    let after = publish_all(subscriptions, sinks, name, pairs);
    lemma_subscription_is_counted(subscriptions, at);
    lemma_deliveries_hold_frame(subscriptions, name, pairs, sink, j);
    lemma_subscriber_with_room_receives_all(subscriptions, sinks, name, pairs, sink);
    let k = choose|k: int| 0 <= k < due.len() && #[trigger] due[k] == pair_frame(name, pairs[j]);
    let held = sinks[sink as int].queue.len() as int;
    assert(after[sink as int].queue[held + k] == pair_frame(name, pairs[j]));
}

/// One update brings a subscriber an event: when the update of a context
/// publishes, a sink that is open, is subscribed to one of the context's
/// topics, and has a free place for every frame that is due to it, holds a
/// frame of that topic at its new value afterwards, behind what it held.
pub proof fn lemma_update_reaches_subscriber<C: RsbarContextContent>(
    subscriptions: Seq<(Seq<char>, SinkId)>,
    sinks: Seq<SinkModel>,
    name: Seq<char>,
    context: C::Model,
    reading: Reading,
    j: int,
    at: int,
)
    requires
        C::on_update(context, reading).result == Ok::<bool, ContextError>(true),
        0 <= j < C::snapshot(C::on_update(context, reading).state).len(),
        0 <= at < subscriptions.len(),
        subscriptions[at].0 == topic_of(
            name,
            C::snapshot(C::on_update(context, reading).state)[j].0,
        ),
        subscriptions[at].1 < sinks.len(),
        sinks[subscriptions[at].1 as int].open,
        sinks[subscriptions[at].1 as int].queue.len() + deliveries(
            subscriptions,
            name,
            C::snapshot(C::on_update(context, reading).state),
            subscriptions[at].1,
        ).len() <= SINK_CAPACITY,
    ensures
        ({
            let sink = subscriptions[at].1 as int;
            let after = sinks_after_update::<C>(subscriptions, sinks, name, context, reading);
            let pair = C::snapshot(C::on_update(context, reading).state)[j];
            exists|k: int|
                sinks[sink].queue.len() <= k < after[sink].queue.len()
                    && #[trigger] after[sink].queue[k] == pair_frame(name, pair)
        }),
{
    let pairs = C::snapshot(C::on_update(context, reading).state);
    let sink = subscriptions[at].1 as int;
    let published = publish_all(subscriptions, sinks, name, pairs);
    let after = sinks_after_update::<C>(subscriptions, sinks, name, context, reading);
    lemma_subscriber_receives_topic(subscriptions, sinks, name, pairs, j, at);
    lemma_publish_all_len(subscriptions, sinks, name, pairs);
    let k = choose|k: int|
        sinks[sink].queue.len() <= k < published[sink].queue.len()
            && #[trigger] published[sink].queue[k] == pair_frame(name, pairs[j]);
    assert(after == published);
    assert(after[sink].queue[k] == pair_frame(name, pairs[j]));
}

impl<C: RsbarContextContent> ServerContext<C> {
    /// The names under which the contexts are registered, in the order of
    /// their registration.
    pub closed spec fn names(&self) -> Seq<Seq<char>> {
        self.names@.map_values(|name: String| name@)
    }

    /// What the contexts hold, in the order of their registration.
    pub closed spec fn contexts(&self) -> Seq<C::Model> {
        self.contexts@.map_values(|context: C| context.model())
    }

    /// The subscriptions of the broker.
    pub closed spec fn subscriptions(&self) -> Seq<(Seq<char>, SinkId)> {
        self.event_handler.subscriptions()
    }

    /// The sinks of the broker.
    pub closed spec fn sinks(&self) -> Seq<SinkModel> {
        self.event_handler.sinks()
    }

    /// Every context has one name, no name is used twice, and the contexts
    /// and the broker are in order.
    pub closed spec fn wf(&self) -> bool {
        &&& self.names@.len() == self.contexts@.len()
        &&& distinct(self.names())
        &&& forall|i: int|
            0 <= i < self.contexts@.len() ==> C::wf((#[trigger] self.contexts@[i]).model())
        &&& self.event_handler.wf()
    }

    /// In a registry in order every context has its own name, and every
    /// context is in order.
    pub proof fn lemma_names_are_unique(&self)
        requires
            self.wf(),
        ensures
            self.names().len() == self.contexts().len(),
            distinct(self.names()),
            forall|i: int| 0 <= i < self.contexts().len() ==> C::wf(#[trigger] self.contexts()[i]),
    {
        assert forall|i: int| 0 <= i < self.contexts().len() implies C::wf(
            #[trigger] self.contexts()[i],
        ) by {
            assert(C::wf(self.contexts@[i].model()));
        }
    }

    /// In a registry in order every subscription names a sink that exists,
    /// and no sink holds more than [`SINK_CAPACITY`] frames.
    pub proof fn lemma_subscriptions_name_sinks(&self)
        requires
            self.wf(),
        ensures
            forall|i: int|
                0 <= i < self.subscriptions().len() ==> (#[trigger] self.subscriptions()[i]).1
                    < self.sinks().len(),
            forall|i: int|
                0 <= i < self.sinks().len() ==> (#[trigger] self.sinks()[i]).queue.len()
                    <= SINK_CAPACITY,
    {
        self.event_handler.lemma_sinks_are_bounded();
    }

    /// A registry without contexts, with a broker without sinks.
    pub fn new() -> (server: Self)
        ensures
            server.wf(),
            server.names() == Seq::<Seq<char>>::empty(),
            server.contexts() == Seq::<C::Model>::empty(),
            server.subscriptions() == Seq::<(Seq<char>, SinkId)>::empty(),
            server.sinks() == Seq::<SinkModel>::empty(),
    {
        let server = ServerContext {
            names: Vec::new(),
            contexts: Vec::new(),
            event_handler: EventHandler::new(),
        };
        assert(server.names() =~= Seq::<Seq<char>>::empty());
        assert(server.contexts() =~= Seq::<C::Model>::empty());
        server
    }

    /// How many contexts are registered.
    pub fn context_count(&self) -> (count: usize)
        ensures
            count == self.contexts().len(),
    {
        self.contexts.len()
    }

    /// The position of the context registered as `name`.
    pub fn find(&self, name: &str) -> (at: Option<usize>)
        ensures
            match at {
                Some(i) => position_of(self.names(), name@) == Some(i as int) && i
                    < self.names().len(),
                None => position_of(self.names(), name@) is None,
            },
    {
        let mut found: Option<usize> = None;
        let mut i: usize = 0;
        while i < self.names.len()
            invariant
                i <= self.names@.len(),
                match found {
                    Some(at) => position_of(self.names().take(i as int), name@) == Some(at as int)
                        && at < i,
                    None => position_of(self.names().take(i as int), name@) is None,
                },
            decreases self.names@.len() - i,
        {
            proof {
                assert(self.names().take(i + 1).drop_last() =~= self.names().take(i as int));
                assert(self.names().take(i + 1).last() == self.names@[i as int]@);
            }
            if str_eq(self.names[i].as_str(), name) {
                found = Some(i);
            }
            i = i + 1;
        }
        assert(self.names().take(self.names@.len() as int) =~= self.names());
        found
    }

    /// Registers a context under a name, behind those that are registered.
    /// A context that was registered under that name is replaced, in its
    /// place.
    pub fn add_context(&mut self, entry: (String, C))
        requires
            old(self).wf(),
            C::wf(entry.1.model()),
        ensures
            final(self).wf(),
            final(self).subscriptions() == old(self).subscriptions(),
            final(self).sinks() == old(self).sinks(),
            match position_of(old(self).names(), entry.0@) {
                Some(i) => final(self).names() == old(self).names() && final(self).contexts()
                    == old(self).contexts().update(i, entry.1.model()),
                None => final(self).names() == old(self).names().push(entry.0@)
                    && final(self).contexts() == old(self).contexts().push(entry.1.model()),
            },
    {
        let (context_name, context) = entry;
        match self.find(context_name.as_str()) {
            Some(i) => {
                self.contexts.set(i, context);
                assert(self.contexts() =~= old(self).contexts().update(i as int, entry.1.model()));
            },
            None => {
                proof {
                    lemma_position_of(self.names(), context_name@);
                }
                self.names.push(context_name);
                self.contexts.push(context);
                assert(self.names() =~= old(self).names().push(entry.0@));
                assert(self.contexts() =~= old(self).contexts().push(entry.1.model()));
            },
        }
    }

    /// What each context needs read for its `init`, in the order of
    /// registration.
    pub fn init_probes(&self) -> (probes: Vec<Probe>)
        requires
            self.wf(),
        ensures
            probes@.len() == self.contexts().len(),
            forall|i: int|
                0 <= i < probes@.len() ==> probe_model(#[trigger] probes@[i]) == C::init_wanted(
                    self.contexts()[i],
                ),
    {
        let mut probes: Vec<Probe> = Vec::new();
        let mut i: usize = 0;
        while i < self.contexts.len()
            invariant
                i <= self.contexts@.len(),
                probes@.len() == i,
                self.wf(),
                forall|k: int|
                    0 <= k < i ==> probe_model(#[trigger] probes@[k]) == C::init_wanted(
                        self.contexts@[k].model(),
                    ),
            decreases self.contexts@.len() - i,
        {
            probes.push(self.contexts[i].init_probe());
            i = i + 1;
        }
        probes
    }

    /// What each context needs read for its update, in the order of
    /// registration.
    pub fn probes(&self) -> (probes: Vec<Probe>)
        requires
            self.wf(),
        ensures
            probes@.len() == self.contexts().len(),
            forall|i: int|
                0 <= i < probes@.len() ==> probe_model(#[trigger] probes@[i]) == C::wanted(
                    self.contexts()[i],
                ),
    {
        let mut probes: Vec<Probe> = Vec::new();
        let mut i: usize = 0;
        while i < self.contexts.len()
            invariant
                i <= self.contexts@.len(),
                probes@.len() == i,
                self.wf(),
                forall|k: int|
                    0 <= k < i ==> probe_model(#[trigger] probes@[k]) == C::wanted(
                        self.contexts@[k].model(),
                    ),
            decreases self.contexts@.len() - i,
        {
            probes.push(self.contexts[i].probe());
            i = i + 1;
        }
        probes
    }

    /// Calls `init` on every context in the order of registration, each
    /// with its reading, and stops at the first that fails: the contexts
    /// behind it are not initialised. Nothing is published.
    pub fn init(&mut self, readings: &Vec<Reading>) -> (r: Result<(), ServerError>)
        requires
            old(self).wf(),
        ensures
            final(self).wf(),
            final(self).names() == old(self).names(),
            final(self).subscriptions() == old(self).subscriptions(),
            final(self).sinks() == old(self).sinks(),
            readings@.len() != old(self).contexts().len() ==> r == Err::<(), ServerError>(
                ServerError::ReadingsMismatch,
            ) && final(self).contexts() == old(self).contexts(),
            readings@.len() == old(self).contexts().len() ==> ({
                let count = old(self).contexts().len() as int;
                let stop = first_init_refusal::<C>(old(self).contexts(), readings@, count);
                &&& final(self).contexts() == initialised::<C>(
                    old(self).contexts(),
                    readings@,
                    reached(stop, count),
                )
                &&& r == round_answer(
                    match stop {
                        Some(k) => Some(C::on_init(old(self).contexts()[k], readings@[k]).result),
                        None => None,
                    },
                )
            }),
    {
        if readings.len() != self.contexts.len() {
            return Err(ServerError::ReadingsMismatch);
        }
        let mut i: usize = 0;
        while i < self.contexts.len()
            invariant
                i <= self.contexts@.len(),
                readings@.len() == self.contexts@.len(),
                self.wf(),
                self.names@ == old(self).names@,
                self.event_handler == old(self).event_handler,
                self.contexts@.len() == old(self).contexts@.len(),
                first_init_refusal::<C>(old(self).contexts(), readings@, i as int) is None,
                self.contexts() == initialised::<C>(old(self).contexts(), readings@, i as int),
            decreases self.contexts@.len() - i,
        {
            let ghost before = self.contexts();
            let outcome = self.contexts[i].init(&readings[i]);
            proof {
                let count = old(self).contexts@.len() as int;
                assert(before[i as int] == old(self).contexts()[i as int]);
                assert(self.contexts() =~= before.update(
                    i as int,
                    C::on_init(before[i as int], readings@[i as int]).state,
                ));
                assert(self.contexts() =~= initialised::<C>(
                    old(self).contexts(),
                    readings@,
                    i + 1,
                ));
                if outcome is Err {
                    lemma_init_refusal_stays::<C>(old(self).contexts(), readings@, i as int, count);
                }
            }
            match outcome {
                Ok(()) => {},
                Err(e) => {
                    return Err(ServerError::Context(e));
                },
            }
            i = i + 1;
        }
        Ok(())
    }

    /// Publishes what the context at `index` handed out: each value under
    /// the topic `<name>/<parameter>`, in the order of the list. An index
    /// that names no context publishes nothing.
    pub fn publish_list(&mut self, index: usize, list: &Vec<Emission>)
        requires
            old(self).wf(),
        ensures
            final(self).wf(),
            final(self).names() == old(self).names(),
            final(self).contexts() == old(self).contexts(),
            final(self).subscriptions() == old(self).subscriptions(),
            final(self).sinks() == (if index < old(self).names().len() {
                publish_all(
                    old(self).subscriptions(),
                    old(self).sinks(),
                    old(self).names()[index as int],
                    emitted(list@),
                )
            } else {
                old(self).sinks()
            }),
    {
        if index >= self.names.len() {
            return ;
        }
        let ghost name = self.names()[index as int];
        let ghost pairs = emitted(list@);
        let mut j: usize = 0;
        while j < list.len()
            invariant
                j <= list@.len(),
                index < self.names@.len(),
                self.wf(),
                self.names@ == old(self).names@,
                self.contexts@ == old(self).contexts@,
                name == self.names()[index as int],
                pairs == emitted(list@),
                self.event_handler.subscriptions() == old(self).event_handler.subscriptions(),
                self.event_handler.sinks() == publish_all(
                    old(self).event_handler.subscriptions(),
                    old(self).event_handler.sinks(),
                    name,
                    pairs.take(j as int),
                ),
            decreases list@.len() - j,
        {
            let mut topic = self.names[index].clone();
            topic.append("/");
            topic.append(list[j].parameter.as_str());
            proof {
                reveal_strlit("/");
                assert(topic@ =~= topic_of(name, list@[j as int].parameter@));
                assert(pairs.take(j + 1).drop_last() =~= pairs.take(j as int));
                assert(pairs.take(j + 1).last() == pairs[j as int]);
            }
            self.event_handler.trigger_event(topic.as_str(), list[j].value.as_str());
            j = j + 1;
        }
        assert(pairs.take(list@.len() as int) =~= pairs);
    }

    /// Updates the context at `index` with its reading and publishes what
    /// it hands out. Returns whether anything was published.
    pub fn update_context(&mut self, index: usize, reading: &Reading) -> (r: Result<
        bool,
        ServerError,
    >)
        requires
            old(self).wf(),
        ensures
            final(self).wf(),
            final(self).names() == old(self).names(),
            final(self).subscriptions() == old(self).subscriptions(),
            index >= old(self).contexts().len() ==> r == Err::<bool, ServerError>(
                ServerError::UnknownContext,
            ) && final(self).contexts() == old(self).contexts() && final(self).sinks()
                == old(self).sinks(),
            index < old(self).contexts().len() ==> ({
                let before = old(self).contexts()[index as int];
                let outcome = C::on_update(before, *reading);
                &&& final(self).contexts() == old(self).contexts().update(
                    index as int,
                    outcome.state,
                )
                &&& r == update_answer(outcome.result)
                &&& final(self).sinks() == sinks_after_update::<C>(
                    old(self).subscriptions(),
                    old(self).sinks(),
                    old(self).names()[index as int],
                    before,
                    *reading,
                )
            }),
    {
        if index >= self.contexts.len() {
            return Err(ServerError::UnknownContext);
        }
        let outcome = self.contexts[index].update(reading);
        assert(self.contexts() =~= old(self).contexts().update(
            index as int,
            C::on_update(old(self).contexts()[index as int], *reading).state,
        ));
        match outcome {
            Ok(list) => {
                let published: bool = list.len() > 0;
                if published {
                    self.publish_list(index, &list);
                }
                Ok(published)
            },
            Err(e) => Err(ServerError::Context(e)),
        }
    }

    /// Updates every context in the order of registration, each with its
    /// reading, and publishes what each hands out. The first context that
    /// fails ends the cycle; those behind it are not updated.
    pub fn update(&mut self, readings: &Vec<Reading>) -> (r: Result<(), ServerError>)
        requires
            old(self).wf(),
        ensures
            final(self).wf(),
            final(self).names() == old(self).names(),
            final(self).subscriptions() == old(self).subscriptions(),
            readings@.len() != old(self).contexts().len() ==> r == Err::<(), ServerError>(
                ServerError::ReadingsMismatch,
            ) && final(self).contexts() == old(self).contexts() && final(self).sinks()
                == old(self).sinks(),
            readings@.len() == old(self).contexts().len() ==> ({
                let count = old(self).contexts().len() as int;
                let stop = first_update_refusal::<C>(old(self).contexts(), readings@, count);
                &&& final(self).contexts() == updated::<C>(
                    old(self).contexts(),
                    readings@,
                    reached(stop, count),
                )
                &&& final(self).sinks() == updated_sinks::<C>(
                    old(self).subscriptions(),
                    old(self).sinks(),
                    old(self).names(),
                    old(self).contexts(),
                    readings@,
                    reached(stop, count),
                )
                &&& r == round_answer(
                    match stop {
                        Some(k) => Some(C::on_update(old(self).contexts()[k], readings@[k]).result),
                        None => None,
                    },
                )
            }),
    {
        if readings.len() != self.contexts.len() {
            return Err(ServerError::ReadingsMismatch);
        }
        let mut i: usize = 0;
        while i < self.contexts.len()
            invariant
                i <= self.contexts@.len(),
                readings@.len() == self.contexts@.len(),
                self.wf(),
                self.names() == old(self).names(),
                self.subscriptions() == old(self).subscriptions(),
                self.contexts@.len() == old(self).contexts@.len(),
                first_update_refusal::<C>(old(self).contexts(), readings@, i as int) is None,
                self.contexts() == updated::<C>(old(self).contexts(), readings@, i as int),
                self.sinks() == updated_sinks::<C>(
                    old(self).subscriptions(),
                    old(self).sinks(),
                    old(self).names(),
                    old(self).contexts(),
                    readings@,
                    i as int,
                ),
            decreases self.contexts@.len() - i,
        {
            let ghost before = self.contexts();
            let outcome = self.update_context(i, &readings[i]);
            proof {
                let count = old(self).contexts@.len() as int;
                assert(before[i as int] == old(self).contexts()[i as int]);
                assert(self.contexts() =~= updated::<C>(old(self).contexts(), readings@, i + 1));
                if outcome is Err {
                    lemma_update_refusal_stays::<C>(
                        old(self).contexts(),
                        readings@,
                        i as int,
                        count,
                    );
                }
            }
            match outcome {
                Ok(_) => {},
                Err(e) => {
                    return Err(e);
                },
            }
            i = i + 1;
        }
        Ok(())
    }

    /// Updates the context registered as `name` with a reading that
    /// arrived on its own, and publishes what the context hands out.
    /// Returns whether anything was published.
    pub fn refresh(&mut self, name: &str, reading: &Reading) -> (r: Result<bool, ServerError>)
        requires
            old(self).wf(),
        ensures
            final(self).wf(),
            final(self).names() == old(self).names(),
            final(self).subscriptions() == old(self).subscriptions(),
            match position_of(old(self).names(), name@) {
                None => r == Err::<bool, ServerError>(ServerError::UnknownContext)
                    && final(self).contexts() == old(self).contexts() && final(self).sinks()
                    == old(self).sinks(),
                Some(i) => {
                    let before = old(self).contexts()[i];
                    let outcome = C::on_update(before, *reading);
                    &&& final(self).contexts() == old(self).contexts().update(i, outcome.state)
                    &&& r == update_answer(outcome.result)
                    &&& final(self).sinks() == sinks_after_update::<C>(
                        old(self).subscriptions(),
                        old(self).sinks(),
                        name@,
                        before,
                        *reading,
                    )
                },
            },
    {
        match self.find(name) {
            None => Err(ServerError::UnknownContext),
            Some(i) => {
                proof {
                    lemma_position_of(self.names(), name@);
                }
                self.update_context(i, reading)
            },
        }
    }

    /// Routes a call: the request is `<context>/<procedure>/<arg>`. The
    /// context is looked up by the first part and called with the other
    /// two. On success returns the action that the caller has to perform
    /// before [`ServerContext::complete_call`].
    pub fn new_call(&mut self, request: &str) -> (r: Result<PendingCall, ServerError>)
        requires
            old(self).wf(),
        ensures
            final(self).wf(),
            final(self).names() == old(self).names(),
            final(self).subscriptions() == old(self).subscriptions(),
            final(self).sinks() == old(self).sinks(),
            match request_parts(request@, CALL_REQUEST_PARTS as nat) {
                None => r matches Err(e) && e == ServerError::Malformed && final(self).contexts()
                    == old(self).contexts(),
                Some(parts) => match position_of(old(self).names(), parts[0]) {
                    None => r matches Err(e) && e == ServerError::UnknownContext
                        && final(self).contexts() == old(self).contexts(),
                    Some(i) => {
                        let outcome = C::on_call(old(self).contexts()[i], parts[1], parts[2]);
                        &&& final(self).contexts() == old(self).contexts().update(i, outcome.state)
                        &&& match r {
                            Ok(pending) => pending.context == i && outcome.result == Ok::<
                                ActionModel,
                                ContextError,
                            >(action_model(pending.action)),
                            Err(refusal) => refusal matches ServerError::Context(e)
                                && outcome.result == Err::<ActionModel, ContextError>(e),
                        }
                    },
                },
            },
    {
        let request_parts = match split_request(request, CALL_REQUEST_PARTS) {
            Ok(parts) => parts,
            Err(_) => {
                return Err(ServerError::Malformed);
            },
        };
        proof {
            assert(part_texts(request_parts@)[0] == request_parts@[0]@);
            assert(part_texts(request_parts@)[1] == request_parts@[1]@);
            assert(part_texts(request_parts@)[2] == request_parts@[2]@);
        }
        match self.find(request_parts[0]) {
            None => Err(ServerError::UnknownContext),
            Some(i) => {
                let answer = self.contexts[i].call(request_parts[1], request_parts[2]);
                assert(self.contexts() =~= old(self).contexts().update(
                    i as int,
                    C::on_call(
                        old(self).contexts()[i as int],
                        request_parts@[1]@,
                        request_parts@[2]@,
                    ).state,
                ));
                match answer {
                    Ok(action) => Ok(PendingCall { context: i, action }),
                    Err(e) => Err(ServerError::Context(e)),
                }
            },
        }
    }

    /// Ends a call whose action was performed. If the action failed, the
    /// call fails with `ExternalFailure` and nothing is published. If it
    /// succeeded, the context's topics are published at their current
    /// values.
    pub fn complete_call(&mut self, pending: &PendingCall, succeeded: bool) -> (r: Result<
        (),
        ServerError,
    >)
        requires
            old(self).wf(),
        ensures
            final(self).wf(),
            final(self).names() == old(self).names(),
            final(self).contexts() == old(self).contexts(),
            final(self).subscriptions() == old(self).subscriptions(),
            !succeeded ==> r == Err::<(), ServerError>(ServerError::ExternalFailure)
                && final(self).sinks() == old(self).sinks(),
            succeeded && pending.context >= old(self).contexts().len() ==> r == Err::<
                (),
                ServerError,
            >(ServerError::UnknownContext) && final(self).sinks() == old(self).sinks(),
            succeeded && pending.context < old(self).contexts().len() ==> ({
                let context = old(self).contexts()[pending.context as int];
                if C::attached(context) {
                    r == Ok::<(), ServerError>(()) && final(self).sinks() == publish_all(
                        old(self).subscriptions(),
                        old(self).sinks(),
                        old(self).names()[pending.context as int],
                        C::snapshot(context),
                    )
                } else {
                    r == Err::<(), ServerError>(
                        ServerError::Context(ContextError::HandlerMissing),
                    ) && final(self).sinks() == old(self).sinks()
                }
            }),
    {
        if !succeeded {
            return Err(ServerError::ExternalFailure);
        }
        if pending.context >= self.contexts.len() {
            return Err(ServerError::UnknownContext);
        }
        match self.contexts[pending.context].force_events() {
            Ok(list) => {
                self.publish_list(pending.context, &list);
                Ok(())
            },
            Err(e) => Err(ServerError::Context(e)),
        }
    }

    /// Registers a subscription: the request is `<context>/<parameter>`.
    /// The context named by the first part must be registered and the sink
    /// must be one of this registry. The sink is subscribed to the request
    /// as it was written, and the context's topics are then published at
    /// their current values, so that the new subscriber sees them; the
    /// other subscribers see them once more.
    pub fn new_event_client(&mut self, request: &str, stream: SinkId) -> (r: Result<
        (),
        ServerError,
    >)
        requires
            old(self).wf(),
        ensures
            final(self).wf(),
            final(self).names() == old(self).names(),
            final(self).contexts() == old(self).contexts(),
            match request_parts(request@, EVENT_REQUEST_PARTS as nat) {
                None => r == Err::<(), ServerError>(ServerError::Malformed)
                    && final(self).subscriptions() == old(self).subscriptions()
                    && final(self).sinks() == old(self).sinks(),
                Some(parts) => match position_of(old(self).names(), parts[0]) {
                    None => r == Err::<(), ServerError>(ServerError::UnknownContext)
                        && final(self).subscriptions() == old(self).subscriptions()
                        && final(self).sinks() == old(self).sinks(),
                    Some(i) => if stream < old(self).sinks().len() {
                        &&& r == Ok::<(), ServerError>(())
                        &&& final(self).subscriptions() == old(self).subscriptions().push(
                            (request@, stream),
                        )
                        &&& final(self).sinks() == (if C::attached(old(self).contexts()[i]) {
                            publish_all(
                                final(self).subscriptions(),
                                old(self).sinks(),
                                parts[0],
                                C::snapshot(old(self).contexts()[i]),
                            )
                        } else {
                            old(self).sinks()
                        })
                    } else {
                        r == Err::<(), ServerError>(ServerError::UnknownSink)
                            && final(self).subscriptions() == old(self).subscriptions()
                            && final(self).sinks() == old(self).sinks()
                    },
                },
            },
    {
        let request_parts = match split_request(request, EVENT_REQUEST_PARTS) {
            Ok(parts) => parts,
            Err(_) => {
                return Err(ServerError::Malformed);
            },
        };
        assert(part_texts(request_parts@)[0] == request_parts@[0]@);
        match self.find(request_parts[0]) {
            None => Err(ServerError::UnknownContext),
            Some(i) => {
                if !self.event_handler.has_sink(stream) {
                    return Err(ServerError::UnknownSink);
                }
                proof {
                    lemma_position_of(self.names(), request_parts@[0]@);
                }
                self.event_handler.add_event(request, stream);
                match self.contexts[i].force_events() {
                    Ok(list) => {
                        self.publish_list(i, &list);
                    },
                    Err(_) => {},
                }
                Ok(())
            },
        }
    }

    /// Opens the sink of a new connection.
    pub fn open_sink(&mut self) -> (sink: SinkId)
        requires
            old(self).wf(),
        ensures
            final(self).wf(),
            final(self).names() == old(self).names(),
            final(self).contexts() == old(self).contexts(),
            final(self).subscriptions() == old(self).subscriptions(),
            sink == old(self).sinks().len(),
            final(self).sinks() == old(self).sinks().push(fresh_sink()),
    {
        self.event_handler.open_sink()
    }

    /// Closes the sink of a connection that ended.
    pub fn close_sink(&mut self, sink: SinkId)
        requires
            old(self).wf(),
        ensures
            final(self).wf(),
            final(self).names() == old(self).names(),
            final(self).contexts() == old(self).contexts(),
            final(self).subscriptions() == old(self).subscriptions(),
            final(self).sinks() == (if sink < old(self).sinks().len() {
                old(self).sinks().update(
                    sink as int,
                    SinkModel { queue: Seq::empty(), open: false },
                )
            } else {
                old(self).sinks()
            }),
    {
        self.event_handler.close_sink(sink)
    }

    /// Takes the oldest frame out of a sink, for its connection to write.
    pub fn next_frame(&mut self, sink: SinkId) -> (frame: Option<String>)
        requires
            old(self).wf(),
        ensures
            final(self).wf(),
            final(self).names() == old(self).names(),
            final(self).contexts() == old(self).contexts(),
            final(self).subscriptions() == old(self).subscriptions(),
            match frame {
                Some(text) => {
                    &&& sink < old(self).sinks().len()
                    &&& old(self).sinks()[sink as int].queue.len() > 0
                    &&& text@ == old(self).sinks()[sink as int].queue[0]
                    &&& final(self).sinks() == old(self).sinks().update(
                        sink as int,
                        without_oldest(old(self).sinks()[sink as int]),
                    )
                },
                None => {
                    &&& !(sink < old(self).sinks().len() && old(self).sinks()[sink as int].queue.len()
                        > 0)
                    &&& final(self).sinks() == old(self).sinks()
                },
            },
    {
        self.event_handler.next_frame(sink)
    }

    /// Whether a sink is one of this registry and still open.
    pub fn is_open(&self, sink: SinkId) -> (open: bool)
        ensures
            open == (sink < self.sinks().len() && self.sinks()[sink as int].open),
    {
        self.event_handler.is_open(sink)
    }

    /// How many frames a sink holds.
    pub fn pending(&self, sink: SinkId) -> (count: usize)
        ensures
            count == (if sink < self.sinks().len() {
                self.sinks()[sink as int].queue.len()
            } else {
                0
            }),
    {
        self.event_handler.pending(sink)
    }
}

} // verus!
