//! The topic-addressed message bus, modelled as a recording service: every
//! publication, subscription, delivery, endpoint registration and response
//! is kept in order.
//!
//! A publication is delivered exactly to the handlers subscribed to its
//! topic at the moment of publishing; a handler subscribed later never
//! receives it.

use vstd::prelude::*;

use crate::data::{
    Bar, BarView, Instrument, InstrumentView, OrderBookDelta, OrderBookDeltaView, OrderBookDeltas,
    OrderBookDeltasView, OrderBookDepth10, OrderBookDepth10View, QuoteTick, QuoteTickView,
    TradeTick, TradeTickView,
};
use crate::identifiers::{BarType, BarTypeView, InstrumentId};
use crate::messages::{DataResponse, DataResponseView};

verus! {

/// Mathematical value of a topic.
pub enum TopicView {
    Delta(Seq<char>),
    Deltas(Seq<char>),
    Depth(Seq<char>),
    Quote(Seq<char>),
    Trade(Seq<char>),
    Instrument(Seq<char>),
    Bar(BarTypeView),
    Response(u64),
}

/// Address of a publish/subscribe channel, minted from an entity key.
#[derive(Debug)]
pub enum Topic {
    Delta(InstrumentId),
    Deltas(InstrumentId),
    Depth(InstrumentId),
    Quote(InstrumentId),
    Trade(InstrumentId),
    Instrument(InstrumentId),
    Bar(BarType),
    Response(u64),
}

impl View for Topic {
    type V = TopicView;

    open spec fn view(&self) -> TopicView {
        match self {
            Topic::Delta(x) => TopicView::Delta(x@),
            Topic::Deltas(x) => TopicView::Deltas(x@),
            Topic::Depth(x) => TopicView::Depth(x@),
            Topic::Quote(x) => TopicView::Quote(x@),
            Topic::Trade(x) => TopicView::Trade(x@),
            Topic::Instrument(x) => TopicView::Instrument(x@),
            Topic::Bar(x) => TopicView::Bar(x@),
            Topic::Response(x) => TopicView::Response(*x),
        }
    }
}

impl Clone for Topic {
    fn clone(&self) -> (r: Self)
        ensures
            r@ == self@,
    {
        match self {
            Topic::Delta(x) => Topic::Delta(x.clone()),
            Topic::Deltas(x) => Topic::Deltas(x.clone()),
            Topic::Depth(x) => Topic::Depth(x.clone()),
            Topic::Quote(x) => Topic::Quote(x.clone()),
            Topic::Trade(x) => Topic::Trade(x.clone()),
            Topic::Instrument(x) => Topic::Instrument(x.clone()),
            Topic::Bar(x) => Topic::Bar(x.clone()),
            Topic::Response(x) => Topic::Response(*x),
        }
    }
}

/// Whether two topics address the same channel.
pub fn topic_eq(a: &Topic, b: &Topic) -> (r: bool)
    ensures
        r == (a@ == b@),
{
    match (a, b) {
        (Topic::Delta(x), Topic::Delta(y)) => x == y,
        (Topic::Deltas(x), Topic::Deltas(y)) => x == y,
        (Topic::Depth(x), Topic::Depth(y)) => x == y,
        (Topic::Quote(x), Topic::Quote(y)) => x == y,
        (Topic::Trade(x), Topic::Trade(y)) => x == y,
        (Topic::Instrument(x), Topic::Instrument(y)) => x == y,
        (Topic::Bar(x), Topic::Bar(y)) => x == y,
        (Topic::Response(x), Topic::Response(y)) => x == y,
        _ => false,
    }
}

/// Mathematical value of a published payload.
pub enum PayloadView {
    Delta(OrderBookDeltaView),
    Deltas(OrderBookDeltasView),
    Depth10(OrderBookDepth10View),
    Quote(QuoteTickView),
    Trade(TradeTickView),
    Bar(BarView),
    Instrument(InstrumentView),
    Response(DataResponseView),
}

/// Payload carried by one publication.
#[derive(Debug)]
pub enum Payload {
    Delta(OrderBookDelta),
    Deltas(OrderBookDeltas),
    Depth10(OrderBookDepth10),
    Quote(QuoteTick),
    Trade(TradeTick),
    Bar(Bar),
    Instrument(Instrument),
    Response(DataResponse),
}

impl View for Payload {
    type V = PayloadView;

    open spec fn view(&self) -> PayloadView {
        match self {
            Payload::Delta(x) => PayloadView::Delta(x@),
            Payload::Deltas(x) => PayloadView::Deltas(x@),
            Payload::Depth10(x) => PayloadView::Depth10(x@),
            Payload::Quote(x) => PayloadView::Quote(x@),
            Payload::Trade(x) => PayloadView::Trade(x@),
            Payload::Bar(x) => PayloadView::Bar(x@),
            Payload::Instrument(x) => PayloadView::Instrument(x@),
            Payload::Response(x) => PayloadView::Response(x@),
        }
    }
}

/// Mathematical value of one publication.
pub struct PublicationView {
    pub topic: TopicView,
    pub payload: PayloadView,
}

/// One broadcast as it happened: the topic and what was published on it.
#[derive(Debug)]
pub struct Publication {
    pub topic: Topic,
    pub payload: Payload,
}

impl View for Publication {
    type V = PublicationView;

    open spec fn view(&self) -> PublicationView {
        PublicationView { topic: self.topic@, payload: self.payload@ }
    }
}

/// Mathematical value of one standing subscription.
pub struct SubscriptionView {
    pub topic: TopicView,
    pub handler: u64,
}

/// A handler's standing interest in one topic.
#[derive(Debug)]
pub struct Subscription {
    pub topic: Topic,
    pub handler: u64,
}

impl View for Subscription {
    type V = SubscriptionView;

    open spec fn view(&self) -> SubscriptionView {
        SubscriptionView { topic: self.topic@, handler: self.handler }
    }
}

/// One delivery: which handler received which publication, by its index in
/// the publication log.
#[derive(Clone, Copy, PartialEq, Eq, Structural, Debug)]
pub struct Delivery {
    pub handler: u64,
    pub publication: usize,
}

/// The deliveries a publication at index `idx` produces, given the
/// subscriptions standing at the moment it is published.
pub open spec fn spec_deliveries_for(
    subs: Seq<SubscriptionView>,
    topic: TopicView,
    idx: usize,
) -> Seq<Delivery>
    decreases subs.len(),
{
    if subs.len() == 0 {
        Seq::empty()
    } else {
        let rest = spec_deliveries_for(subs.drop_last(), topic, idx);
        if subs.last().topic == topic {
            rest.push(Delivery { handler: subs.last().handler, publication: idx })
        } else {
            rest
        }
    }
}

/// Helper: the deliveries of a prefix grow by at most the entry added.
proof fn lemma_deliveries_for_take(
    subs: Seq<SubscriptionView>,
    topic: TopicView,
    idx: usize,
    i: int,
)
    requires
        0 <= i < subs.len(),
    ensures
        spec_deliveries_for(subs.take(i + 1), topic, idx) == if subs[i].topic == topic {
            spec_deliveries_for(subs.take(i), topic, idx).push(
                Delivery { handler: subs[i].handler, publication: idx },
            )
        } else {
            spec_deliveries_for(subs.take(i), topic, idx)
        },
{
    assert(subs.take(i + 1).last() == subs[i]);
    assert(subs.take(i + 1).drop_last() =~= subs.take(i));
}

/// Holds the names a switchboard mints: the well-known endpoint for the
/// engine's command inbox.
#[derive(Debug)]
pub struct Switchboard {
    pub data_engine_execute: String,
}

impl Switchboard {
    /// The switchboard with its well-known endpoint names.
    pub fn new() -> (r: Self)
        ensures
            r.data_engine_execute@ == "data_engine_execute"@,
    {
        Switchboard { data_engine_execute: String::from_str("data_engine_execute") }
    }

    /// Topic for a single delta of one instrument.
    pub fn get_delta_topic(&self, instrument_id: InstrumentId) -> (r: Topic)
        ensures
            r@ == TopicView::Delta(instrument_id@),
    {
        Topic::Delta(instrument_id)
    }

    /// Topic for delta batches of one instrument.
    pub fn get_deltas_topic(&self, instrument_id: InstrumentId) -> (r: Topic)
        ensures
            r@ == TopicView::Deltas(instrument_id@),
    {
        Topic::Deltas(instrument_id)
    }

    /// Topic for depth snapshots of one instrument.
    pub fn get_depth_topic(&self, instrument_id: InstrumentId) -> (r: Topic)
        ensures
            r@ == TopicView::Depth(instrument_id@),
    {
        Topic::Depth(instrument_id)
    }

    /// Topic for quotes of one instrument.
    pub fn get_quote_topic(&self, instrument_id: InstrumentId) -> (r: Topic)
        ensures
            r@ == TopicView::Quote(instrument_id@),
    {
        Topic::Quote(instrument_id)
    }

    /// Topic for trades of one instrument.
    pub fn get_trade_topic(&self, instrument_id: InstrumentId) -> (r: Topic)
        ensures
            r@ == TopicView::Trade(instrument_id@),
    {
        Topic::Trade(instrument_id)
    }

    /// Topic for reference data of one instrument.
    pub fn get_instrument_topic(&self, instrument_id: InstrumentId) -> (r: Topic)
        ensures
            r@ == TopicView::Instrument(instrument_id@),
    {
        Topic::Instrument(instrument_id)
    }

    /// Topic for bars of one bar type.
    pub fn get_bar_topic(&self, bar_type: BarType) -> (r: Topic)
        ensures
            r@ == TopicView::Bar(bar_type@),
    {
        Topic::Bar(bar_type)
    }
}

/// A bus after one publication: the publication appended, the deliveries
/// extended by exactly the then-standing subscribers of the topic.
pub open spec fn spec_bus_publish(
    b: MessageBusView,
    topic: TopicView,
    payload: PayloadView,
) -> MessageBusView {
    MessageBusView {
        publications: b.publications.push(PublicationView { topic, payload }),
        deliveries: b.deliveries + spec_deliveries_for(
            b.subscriptions,
            topic,
            b.publications.len() as usize,
        ),
        ..b
    }
}

/// Mathematical value of the bus.
pub struct MessageBusView {
    pub publications: Seq<PublicationView>,
    pub subscriptions: Seq<SubscriptionView>,
    pub deliveries: Seq<Delivery>,
    pub responses: Seq<DataResponseView>,
    pub endpoints: Seq<(Seq<char>, u64)>,
}

/// The bus: fire-and-forget broadcast by topic, endpoint-addressed
/// delivery, and correlation-routed responses, all recorded in order.
#[derive(Debug)]
pub struct MessageBus {
    pub switchboard: Switchboard,
    pub publications: Vec<Publication>,
    pub subscriptions: Vec<Subscription>,
    pub deliveries: Vec<Delivery>,
    pub responses: Vec<DataResponse>,
    pub endpoints: Vec<(String, u64)>,
}

impl View for MessageBus {
    type V = MessageBusView;

    open spec fn view(&self) -> MessageBusView {
        MessageBusView {
            publications: self.publications@.map(|i: int, p: Publication| p@),
            subscriptions: self.subscriptions@.map(|i: int, s: Subscription| s@),
            deliveries: self.deliveries@,
            responses: self.responses@.map(|i: int, r: DataResponse| r@),
            endpoints: self.endpoints@.map(|i: int, e: (String, u64)| (e.0@, e.1)),
        }
    }
}

impl MessageBus {
    /// An empty bus.
    pub fn new() -> (r: Self)
        ensures
            r@.publications == Seq::<PublicationView>::empty(),
            r@.subscriptions == Seq::<SubscriptionView>::empty(),
            r@.deliveries == Seq::<Delivery>::empty(),
            r@.responses == Seq::<DataResponseView>::empty(),
            r@.endpoints == Seq::<(Seq<char>, u64)>::empty(),
            r.switchboard.data_engine_execute@ == "data_engine_execute"@,
    {
        let r = MessageBus {
            switchboard: Switchboard::new(),
            publications: Vec::new(),
            subscriptions: Vec::new(),
            deliveries: Vec::new(),
            responses: Vec::new(),
            endpoints: Vec::new(),
        };
        proof {
            assert(r@.publications =~= Seq::<PublicationView>::empty());
            assert(r@.subscriptions =~= Seq::<SubscriptionView>::empty());
            assert(r@.responses =~= Seq::<DataResponseView>::empty());
            assert(r@.endpoints =~= Seq::<(Seq<char>, u64)>::empty());
        }
        r
    }

    /// Broadcasts a payload on a topic: the publication is appended to the
    /// log and delivered to exactly the handlers subscribed to that topic
    /// now, in subscription order. Later subscribers never see it.
    pub fn publish(&mut self, topic: Topic, payload: Payload)
        ensures
            final(self)@ == spec_bus_publish(old(self)@, topic@, payload@),
            final(self).switchboard == old(self).switchboard,
    {
        let ghost subs_view = self@.subscriptions;
        let ghost dels_pre = self@.deliveries;
        let idx = self.publications.len();
        proof {
            assert(idx as int == old(self)@.publications.len());
        }
        let mut i: usize = 0;
        let n = self.subscriptions.len();
        while i < n
            invariant
                i <= n,
                n == self.subscriptions.len(),
                subs_view == self@.subscriptions,
                subs_view.len() == n,
                self@.publications == old(self)@.publications,
                self@.subscriptions == old(self)@.subscriptions,
                self@.responses == old(self)@.responses,
                self@.endpoints == old(self)@.endpoints,
                self.switchboard == old(self).switchboard,
                self.publications == old(self).publications,
                self.subscriptions == old(self).subscriptions,
                self.responses == old(self).responses,
                self.endpoints == old(self).endpoints,
                idx as int == old(self)@.publications.len(),
                self@.deliveries == dels_pre + spec_deliveries_for(
                    subs_view.take(i as int),
                    topic@,
                    idx,
                ),
            decreases n - i,
        {
            let matched = topic_eq(&self.subscriptions[i].topic, &topic);
            if matched {
                let h = self.subscriptions[i].handler;
                self.deliveries.push(Delivery { handler: h, publication: idx });
            }
            proof {
                lemma_deliveries_for_take(subs_view, topic@, idx, i as int);
                if subs_view[i as int].topic == topic@ {
                    assert(self@.deliveries =~= dels_pre + spec_deliveries_for(
                        subs_view.take(i as int + 1),
                        topic@,
                        idx,
                    ));
                }
            }
            i = i + 1;
        }
        proof {
            assert(subs_view.take(n as int) =~= subs_view);
        }
        let ghost pubs_pre = self@.publications;
        self.publications.push(Publication { topic, payload });
        proof {
            assert(self@.publications =~= pubs_pre.push(
                PublicationView { topic: topic@, payload: payload@ },
            ));
        }
    }

    /// Registers a handler's interest in a topic. No existing delivery or
    /// publication changes: nothing is replayed to a late subscriber.
    pub fn subscribe(&mut self, topic: Topic, handler: u64)
        ensures
            final(self)@.subscriptions == old(self)@.subscriptions.push(
                SubscriptionView { topic: topic@, handler },
            ),
            final(self)@.publications == old(self)@.publications,
            final(self)@.deliveries == old(self)@.deliveries,
            final(self)@.responses == old(self)@.responses,
            final(self)@.endpoints == old(self)@.endpoints,
            final(self).switchboard == old(self).switchboard,
    {
        let ghost pre = self@.subscriptions;
        self.subscriptions.push(Subscription { topic, handler });
        proof {
            assert(self@.subscriptions =~= pre.push(
                SubscriptionView { topic: self.subscriptions@.last().topic@, handler },
            ));
        }
    }

    /// Registers a handler under an endpoint name for single-receiver
    /// delivery.
    pub fn register(&mut self, endpoint: String, handler: u64)
        ensures
            final(self)@.endpoints == old(self)@.endpoints.push((endpoint@, handler)),
            final(self)@.publications == old(self)@.publications,
            final(self)@.subscriptions == old(self)@.subscriptions,
            final(self)@.deliveries == old(self)@.deliveries,
            final(self)@.responses == old(self)@.responses,
            final(self).switchboard == old(self).switchboard,
    {
        let ghost pre = self@.endpoints;
        let ghost e = endpoint@;
        self.endpoints.push((endpoint, handler));
        proof {
            assert(self@.endpoints =~= pre.push((e, handler)));
        }
    }

    /// Routes a response to the requester identified by its correlation id.
    pub fn send_response(&mut self, response: DataResponse)
        ensures
            final(self)@.responses == old(self)@.responses.push(response@),
            final(self)@.publications == old(self)@.publications,
            final(self)@.subscriptions == old(self)@.subscriptions,
            final(self)@.deliveries == old(self)@.deliveries,
            final(self)@.endpoints == old(self)@.endpoints,
            final(self).switchboard == old(self).switchboard,
    {
        let ghost pre = self@.responses;
        let ghost v = response@;
        self.responses.push(response);
        proof {
            assert(self@.responses =~= pre.push(v));
        }
    }
}

/// No replay: a handler that was not subscribed to a topic when a
/// publication was made never holds a delivery for that publication, and
/// subscribing afterwards does not create one.
///
/// Formally: subscribing leaves the delivery log unchanged, so any
/// publication index absent from a handler's deliveries before a
/// subscription is still absent after it.
pub proof fn lemma_no_replay(
    pre: MessageBusView,
    post: MessageBusView,
    topic: TopicView,
    handler: u64,
    publication: usize,
)
    requires
        post.subscriptions == pre.subscriptions.push(SubscriptionView { topic, handler }),
        post.deliveries == pre.deliveries,
        forall|k: int|
            0 <= k < pre.deliveries.len() ==> !(pre.deliveries[k].handler == handler
                && pre.deliveries[k].publication == publication),
    ensures
        forall|k: int|
            0 <= k < post.deliveries.len() ==> !(post.deliveries[k].handler == handler
                && post.deliveries[k].publication == publication),
{
}

} // verus!
