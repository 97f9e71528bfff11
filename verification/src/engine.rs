//! The data engine: client registry and routing, command dispatch,
//! request/response routing, and the inbound data pipeline over the cache
//! and the message bus.

use vstd::prelude::*;

use indexmap::IndexMap;

use crate::cache::{spec_books_apply, spec_last_bar, Cache, CacheView};
use crate::client::{
    spec_adapter_apply, spec_classified, AdapterState, AdapterView, DataClientAdapter,
    SubscriptionKeyView,
};
use crate::data::{
    spec_is_last, Bar, BarView, Data, DataView, Instrument, OrderBookDelta, OrderBookDeltaView,
    OrderBookDeltas, OrderBookDeltasView, OrderBookDepth10, QuoteTick, TradeTick,
};
use crate::identifiers::{BarIntervalType, BarType, ClientId, InstrumentId, Venue};
use crate::messages::{
    DataRequest, DataResponse, DataType, ResponsePayload, SubscriptionCommand,
};
use crate::msgbus::{
    spec_bus_publish, MessageBus, MessageBusView, Payload, PayloadView, Topic, TopicView,
};
use crate::routing::{
    im_entries, im_get, im_insert, im_new, lemma_im_insert_absent, lemma_im_insert_frame,
    routing_entries, spec_im_insert, spec_routing_get,
};

verus! {

/// Mathematical value of the engine's configuration.
pub struct ConfigView {
    pub time_bars_build_with_no_updates: bool,
    pub time_bars_timestamp_on_close: bool,
    pub time_bars_interval_type: BarIntervalType,
    pub validate_data_sequence: bool,
    pub buffer_deltas: bool,
    pub external_clients: Option<Seq<Seq<char>>>,
    pub debug: bool,
}

/// Engine configuration, immutable after construction.
#[derive(Debug)]
pub struct DataEngineConfig {
    pub time_bars_build_with_no_updates: bool,
    pub time_bars_timestamp_on_close: bool,
    pub time_bars_interval_type: BarIntervalType,
    pub validate_data_sequence: bool,
    pub buffer_deltas: bool,
    pub external_clients: Option<Vec<ClientId>>,
    pub debug: bool,
}

impl View for DataEngineConfig {
    type V = ConfigView;

    open spec fn view(&self) -> ConfigView {
        ConfigView {
            time_bars_build_with_no_updates: self.time_bars_build_with_no_updates,
            time_bars_timestamp_on_close: self.time_bars_timestamp_on_close,
            time_bars_interval_type: self.time_bars_interval_type,
            validate_data_sequence: self.validate_data_sequence,
            buffer_deltas: self.buffer_deltas,
            external_clients: match self.external_clients {
                Some(ids) => Some(ids@.map(|i: int, c: ClientId| c@)),
                None => None,
            },
            debug: self.debug,
        }
    }
}

impl Default for DataEngineConfig {
    /// The stock configuration: time bars are built and stamped on close
    /// over left-open intervals, sequence validation and delta buffering
    /// are off, and no client is external.
    fn default() -> (r: Self)
        ensures
            r.time_bars_build_with_no_updates,
            r.time_bars_timestamp_on_close,
            r.time_bars_interval_type == BarIntervalType::LeftOpen,
            !r.validate_data_sequence,
            !r.buffer_deltas,
            r.external_clients is None,
            !r.debug,
    {
        DataEngineConfig {
            time_bars_build_with_no_updates: true,
            time_bars_timestamp_on_close: true,
            time_bars_interval_type: BarIntervalType::LeftOpen,
            validate_data_sequence: false,
            buffer_deltas: false,
            external_clients: None,
            debug: false,
        }
    }
}

/// The clock as the engine sees it: the identifiers of its live timers.
#[derive(Debug)]
pub struct Clock {
    pub timers: Vec<u64>,
}

impl Clock {
    /// A clock with no timers.
    pub fn new() -> (r: Self)
        ensures
            r.timers@ == Seq::<u64>::empty(),
    {
        let r = Clock { timers: Vec::new() };
        proof {
            assert(r.timers@ =~= Seq::<u64>::empty());
        }
        r
    }

    /// Registers one timer.
    pub fn add_timer(&mut self, id: u64)
        ensures
            final(self).timers@ == old(self).timers@.push(id),
    {
        self.timers.push(id);
    }

    /// Cancels every live timer.
    pub fn cancel_timers(&mut self)
        ensures
            final(self).timers@ == Seq::<u64>::empty(),
    {
        self.timers = Vec::new();
        proof {
            assert(self.timers@ =~= Seq::<u64>::empty());
        }
    }
}

/// A message arriving on the engine's command endpoint. The engine's
/// inbox is strongly typed: only subscription commands are acted on, and
/// every other variant is dropped where the transport would have carried
/// an unexpected payload.
#[derive(Debug)]
pub enum EngineMessage {
    Command(SubscriptionCommand),
    Data(Data),
    Request(DataRequest),
    Response(DataResponse),
}

/// Mathematical value of the engine.
pub struct EngineView {
    pub clients: Seq<AdapterView>,
    pub default_client: Option<AdapterView>,
    pub routing: Seq<(Seq<char>, Seq<char>)>,
    pub buffered: Seq<(Seq<char>, Seq<OrderBookDeltaView>)>,
    pub cache: CacheView,
    pub msgbus: MessageBusView,
    pub timers: Seq<u64>,
    pub config: ConfigView,
}

/// Index of the first registered adapter with the given client id.
pub open spec fn spec_find_client(cs: Seq<AdapterView>, id: Seq<char>) -> Option<int>
    decreases cs.len(),
{
    if cs.len() == 0 {
        None
    } else if cs[0].client_id == id {
        Some(0)
    } else {
        match spec_find_client(cs.skip(1), id) {
            Some(i) => Some(i + 1),
            None => None,
        }
    }
}

/// What `spec_find_client` finds: the first match, or nothing anywhere.
pub proof fn lemma_find_client_char(cs: Seq<AdapterView>, id: Seq<char>)
    ensures
        match spec_find_client(cs, id) {
            Some(i) => 0 <= i < cs.len() && cs[i].client_id == id && forall|k: int|
                0 <= k < i ==> cs[k].client_id != id,
            None => forall|k: int| 0 <= k < cs.len() ==> cs[k].client_id != id,
        },
    decreases cs.len(),
{
    if cs.len() > 0 && cs[0].client_id != id {
        lemma_find_client_char(cs.skip(1), id);
        match spec_find_client(cs.skip(1), id) {
            Some(i) => {
                assert(cs.skip(1)[i] == cs[i + 1]);
                assert forall|k: int| 0 <= k < i + 1 implies cs[k].client_id != id by {
                    if k > 0 {
                        assert(cs.skip(1)[k - 1] == cs[k]);
                    }
                };
            },
            None => {
                assert forall|k: int| 0 <= k < cs.len() implies cs[k].client_id != id by {
                    if k > 0 {
                        assert(cs.skip(1)[k - 1] == cs[k]);
                    }
                };
            },
        }
    }
}

/// Index of the buffer accumulating deltas for the given instrument.
pub open spec fn spec_find_buffer(
    bufs: Seq<(Seq<char>, Seq<OrderBookDeltaView>)>,
    id: Seq<char>,
) -> Option<int>
    decreases bufs.len(),
{
    if bufs.len() == 0 {
        None
    } else if bufs[0].0 == id {
        Some(0)
    } else {
        match spec_find_buffer(bufs.skip(1), id) {
            Some(i) => Some(i + 1),
            None => None,
        }
    }
}

/// What `spec_find_buffer` finds: the first match, or nothing anywhere.
pub proof fn lemma_find_buffer_char(bufs: Seq<(Seq<char>, Seq<OrderBookDeltaView>)>, id: Seq<char>)
    ensures
        match spec_find_buffer(bufs, id) {
            Some(i) => 0 <= i < bufs.len() && bufs[i].0 == id && forall|k: int|
                0 <= k < i ==> bufs[k].0 != id,
            None => forall|k: int| 0 <= k < bufs.len() ==> bufs[k].0 != id,
        },
    decreases bufs.len(),
{
    if bufs.len() > 0 && bufs[0].0 != id {
        lemma_find_buffer_char(bufs.skip(1), id);
        match spec_find_buffer(bufs.skip(1), id) {
            Some(i) => {
                assert(bufs.skip(1)[i] == bufs[i + 1]);
                assert forall|k: int| 0 <= k < i + 1 implies bufs[k].0 != id by {
                    if k > 0 {
                        assert(bufs.skip(1)[k - 1] == bufs[k]);
                    }
                };
            },
            None => {
                assert forall|k: int| 0 <= k < bufs.len() implies bufs[k].0 != id by {
                    if k > 0 {
                        assert(bufs.skip(1)[k - 1] == bufs[k]);
                    }
                };
            },
        }
    }
}

/// The registry after an adapter is inserted: an existing client id keeps
/// its place and is replaced; a new one is appended in registration order.
pub open spec fn spec_clients_insert(cs: Seq<AdapterView>, a: AdapterView) -> Seq<AdapterView> {
    match spec_find_client(cs, a.client_id) {
        Some(i) => cs.update(i, a),
        None => cs.push(a),
    }
}

/// The registry after a client id is removed; unknown ids change nothing.
pub open spec fn spec_clients_remove(cs: Seq<AdapterView>, id: Seq<char>) -> Seq<AdapterView> {
    match spec_find_client(cs, id) {
        Some(i) => cs.remove(i),
        None => cs,
    }
}

/// The routing entries that do not point to the given client id, in order.
pub open spec fn spec_routing_without(
    entries: Seq<(Seq<char>, Seq<char>)>,
    id: Seq<char>,
) -> Seq<(Seq<char>, Seq<char>)>
    decreases entries.len(),
{
    if entries.len() == 0 {
        entries
    } else if entries[0].1 == id {
        spec_routing_without(entries.skip(1), id)
    } else {
        seq![entries[0]] + spec_routing_without(entries.skip(1), id)
    }
}

/// Helper: filtering distributes over appending one entry.
proof fn lemma_routing_without_push(
    entries: Seq<(Seq<char>, Seq<char>)>,
    e: (Seq<char>, Seq<char>),
    id: Seq<char>,
)
    ensures
        spec_routing_without(entries.push(e), id) == if e.1 == id {
            spec_routing_without(entries, id)
        } else {
            spec_routing_without(entries, id).push(e)
        },
    decreases entries.len(),
{
    if entries.len() == 0 {
        assert(entries.push(e)[0] == e);
        assert(entries.push(e).skip(1) =~= Seq::<(Seq<char>, Seq<char>)>::empty());
        if e.1 != id {
            assert(seq![e] + spec_routing_without(Seq::<(Seq<char>, Seq<char>)>::empty(), id)
                =~= spec_routing_without(entries, id).push(e));
        }
    } else {
        assert(entries.push(e)[0] == entries[0]);
        assert(entries.push(e).skip(1) =~= entries.skip(1).push(e));
        lemma_routing_without_push(entries.skip(1), e, id);
        if e.1 != id {
            if entries[0].1 != id {
                assert(seq![entries[0]] + spec_routing_without(entries.skip(1), id).push(e)
                    =~= (seq![entries[0]] + spec_routing_without(entries.skip(1), id)).push(e));
            }
        }
    }
}

/// Helper: every filtered entry is one the map already held.
proof fn lemma_routing_without_members(entries: Seq<(Seq<char>, Seq<char>)>, id: Seq<char>)
    ensures
        forall|k: int|
            0 <= k < spec_routing_without(entries, id).len() ==> exists|j: int|
                0 <= j < entries.len() && #[trigger] spec_routing_without(entries, id)[k]
                    == entries[j],
    decreases entries.len(),
{
    if entries.len() > 0 {
        lemma_routing_without_members(entries.skip(1), id);
        let tail = spec_routing_without(entries.skip(1), id);
        let whole = spec_routing_without(entries, id);
        assert forall|k: int| 0 <= k < whole.len() implies exists|j: int|
            0 <= j < entries.len() && #[trigger] whole[k] == entries[j] by {
            if entries[0].1 == id {
                let j = choose|j: int| 0 <= j < entries.skip(1).len() && tail[k] == entries.skip(
                    1,
                )[j];
                assert(whole[k] == entries[j + 1]);
            } else {
                if k == 0 {
                    assert(whole[0] == entries[0]);
                } else {
                    assert(whole[k] == tail[k - 1]);
                    let j = choose|j: int|
                        0 <= j < entries.skip(1).len() && tail[k - 1] == entries.skip(1)[j];
                    assert(whole[k] == entries[j + 1]);
                }
            }
        };
    }
}

/// Well-formedness of the engine: no two adapters share a client id, the
/// routing map's venues are unique, and every routing entry points to a
/// registered client.
pub open spec fn engine_wf(e: EngineView) -> bool {
    &&& forall|i: int, j: int|
        0 <= i < j < e.clients.len() ==> e.clients[i].client_id != e.clients[j].client_id
    &&& forall|i: int, j: int| 0 <= i < j < e.routing.len() ==> e.routing[i].0 != e.routing[j].0
    &&& forall|i: int|
        0 <= i < e.routing.len() ==> exists|k: int|
            0 <= k < e.clients.len() && e.clients[k].client_id == #[trigger] e.routing[i].1
}

/// The market-data routing and dispatch engine.
#[derive(Debug)]
pub struct DataEngine {
    pub clock: Clock,
    pub cache: Cache,
    pub msgbus: MessageBus,
    pub clients: Vec<DataClientAdapter>,
    pub default_client: Option<DataClientAdapter>,
    pub routing_map: IndexMap<String, String>,
    pub buffered_deltas_map: Vec<(InstrumentId, Vec<OrderBookDelta>)>,
    pub config: DataEngineConfig,
}

impl View for DataEngine {
    type V = EngineView;

    open spec fn view(&self) -> EngineView {
        EngineView {
            clients: self.clients@.map(|i: int, a: DataClientAdapter| a@),
            default_client: match self.default_client {
                Some(a) => Some(a@),
                None => None,
            },
            routing: routing_entries(self.routing_map),
            buffered: self.buffered_deltas_map@.map(
                |i: int, b: (InstrumentId, Vec<OrderBookDelta>)|
                    (b.0@, b.1@.map(|j: int, d: OrderBookDelta| d@)),
            ),
            cache: self.cache@,
            msgbus: self.msgbus@,
            timers: self.clock.timers@,
            config: self.config@,
        }
    }
}

impl DataEngine {
    /// An engine over the given clock, cache and bus, with no clients, no
    /// routing, and no buffered deltas; absent options take the defaults.
    pub fn new(clock: Clock, cache: Cache, msgbus: MessageBus, config: Option<DataEngineConfig>)
        -> (r: Self)
        ensures
            r@.clients == Seq::<AdapterView>::empty(),
            r@.default_client is None,
            r@.routing == Seq::<(Seq<char>, Seq<char>)>::empty(),
            r@.buffered == Seq::<(Seq<char>, Seq<OrderBookDeltaView>)>::empty(),
            r@.cache == cache@,
            r@.msgbus == msgbus@,
            r@.timers == clock.timers@,
            r@.config == (match config {
                Some(c) => c@,
                None => ConfigView {
                    time_bars_build_with_no_updates: true,
                    time_bars_timestamp_on_close: true,
                    time_bars_interval_type: BarIntervalType::LeftOpen,
                    validate_data_sequence: false,
                    buffer_deltas: false,
                    external_clients: None,
                    debug: false,
                },
            }),
            engine_wf(r@),
    {
        let config = match config {
            Some(c) => c,
            None => DataEngineConfig::default(),
        };
        let r = DataEngine {
            clock,
            cache,
            msgbus,
            clients: Vec::new(),
            default_client: None,
            routing_map: im_new(),
            buffered_deltas_map: Vec::new(),
            config,
        };
        proof {
            assert(r@.clients =~= Seq::<AdapterView>::empty());
            assert(r@.buffered =~= Seq::<(Seq<char>, Seq<OrderBookDeltaView>)>::empty());
        }
        r
    }

    /// Registers the default routing client: messages that resolve to no
    /// registered client and no venue route go to it. Any prior default is
    /// dropped.
    pub fn register_default_client(&mut self, client: DataClientAdapter)
        ensures
            final(self)@ == (EngineView { default_client: Some(client@), ..old(self)@ }),
    {
        self.default_client = Some(client);
    }

    /// Registers an adapter under its client id, overwriting an adapter
    /// already registered under the same id in place; with a routing
    /// venue, records that venue's route to this client, overwriting any
    /// prior route for the venue.
    pub fn register_client(&mut self, client: DataClientAdapter, routing: Option<Venue>)
        requires
            engine_wf(old(self)@),
        ensures
            final(self)@.clients == spec_clients_insert(old(self)@.clients, client@),
            final(self)@.routing == (match routing {
                Some(v) => spec_im_insert(old(self)@.routing, v@, client@.client_id),
                None => old(self)@.routing,
            }),
            final(self)@.default_client == old(self)@.default_client,
            final(self)@.buffered == old(self)@.buffered,
            final(self)@.cache == old(self)@.cache,
            final(self)@.msgbus == old(self)@.msgbus,
            final(self)@.timers == old(self)@.timers,
            final(self)@.config == old(self)@.config,
            engine_wf(final(self)@),
    {
        let ghost pre = self@;
        let ghost cv = client@;
        if let Some(venue) = routing {
            let ghost vv = venue@;
            let cid = client.client_id.clone();
            im_insert(&mut self.routing_map, venue.value, cid.value);
            proof {
                assert(self@.routing == spec_im_insert(old(self)@.routing, vv, cv.client_id));
            }
        }
        let ghost routed = self@.routing;
        let ghost clients_pre = self@.clients;
        proof {
            assert(clients_pre == pre.clients);
        }
        let n = self.clients.len();
        let mut i: usize = 0;
        while i < n
            invariant
                i <= n,
                n == self.clients@.len(),
                engine_wf(old(self)@),
                clients_pre == self@.clients,
                clients_pre == old(self)@.clients,
                clients_pre.len() == n,
                cv == client@,
                self@.routing == routed,
                routed == (match routing {
                    Some(v) => spec_im_insert(old(self)@.routing, v@, cv.client_id),
                    None => old(self)@.routing,
                }),
                self@.default_client == old(self)@.default_client,
                self@.buffered == old(self)@.buffered,
                self@.cache == old(self)@.cache,
                self@.msgbus == old(self)@.msgbus,
                self@.timers == old(self)@.timers,
                self@.config == old(self)@.config,
                forall|k: int| 0 <= k < i ==> clients_pre[k].client_id != cv.client_id,
                forall|k: int| 0 <= k < n ==> clients_pre[k] == self.clients@[k]@,
            decreases n - i,
        {
            if self.clients[i].client_id == client.client_id {
                proof {
                    lemma_find_client_char(clients_pre, cv.client_id);
                    match spec_find_client(clients_pre, cv.client_id) {
                        Some(fi) => {
                            assert(fi == i as int) by {
                                if fi < i as int {
                                    assert(clients_pre[fi].client_id != cv.client_id);
                                }
                                if fi > i as int {
                                    assert(clients_pre[i as int].client_id != cv.client_id);
                                }
                            };
                        },
                        None => {
                            assert(clients_pre[i as int].client_id != cv.client_id);
                        },
                    }
                }
                self.clients[i] = client;
                proof {
                    assert(self@.clients =~= spec_clients_insert(clients_pre, cv));
                    lemma_register_wf(old(self)@, self@, cv);
                }
                return ;
            }
            i = i + 1;
        }
        proof {
            lemma_find_client_char(clients_pre, cv.client_id);
            if spec_find_client(clients_pre, cv.client_id) is Some {
                let fi = spec_find_client(clients_pre, cv.client_id).unwrap();
                assert(clients_pre[fi].client_id != cv.client_id);
            }
        }
        self.clients.push(client);
        proof {
            assert(self@.clients =~= spec_clients_insert(clients_pre, cv));
            lemma_register_wf(old(self)@, self@, cv);
        }
    }

    /// Deregisters a client: the adapter leaves the registry and every
    /// routing entry pointing to it is dropped, the rest keeping their
    /// order. Removing an unknown id is a no-op.
    pub fn deregister_client(&mut self, client_id: &ClientId)
        requires
            engine_wf(old(self)@),
        ensures
            final(self)@.clients == spec_clients_remove(old(self)@.clients, client_id@),
            final(self)@.routing == spec_routing_without(old(self)@.routing, client_id@),
            final(self)@.default_client == old(self)@.default_client,
            final(self)@.buffered == old(self)@.buffered,
            final(self)@.cache == old(self)@.cache,
            final(self)@.msgbus == old(self)@.msgbus,
            final(self)@.timers == old(self)@.timers,
            final(self)@.config == old(self)@.config,
            engine_wf(final(self)@),
    {
        let ghost pre = self@;
        let ghost idv = client_id@;

        // Drop the adapter itself, keeping the order of the others.
        let n = self.clients.len();
        let ghost clients_pre = self@.clients;
        let mut i: usize = 0;
        let mut idx: Option<usize> = None;
        while i < n
            invariant_except_break
                i <= n,
                n == self.clients@.len(),
                idv == client_id@,
                clients_pre == self@.clients,
                forall|k: int| 0 <= k < i ==> clients_pre[k].client_id != idv,
                idx is None,
            ensures
                n == self.clients@.len(),
                idv == client_id@,
                clients_pre == self@.clients,
                match idx {
                    Some(j) => j < n && clients_pre[j as int].client_id == idv && forall|k: int|
                        0 <= k < j ==> clients_pre[k].client_id != idv,
                    None => forall|k: int| 0 <= k < n ==> clients_pre[k].client_id != idv,
                },
            decreases n - i,
        {
            if self.clients[i].client_id == *client_id {
                idx = Some(i);
                break;
            }
            i = i + 1;
        }
        match idx {
            Some(i) => {
                proof {
                    lemma_find_client_char(clients_pre, idv);
                    match spec_find_client(clients_pre, idv) {
                        Some(fi) => {
                            assert(fi == i as int) by {
                                if fi < i as int {
                                    assert(clients_pre[fi].client_id != idv);
                                }
                                if fi > i as int {
                                    assert(clients_pre[i as int].client_id != idv);
                                }
                            };
                        },
                        None => {
                            assert(clients_pre[i as int].client_id != idv);
                        },
                    }
                }
                let _removed = self.clients.remove(i);
                proof {
                    assert(self@.clients =~= clients_pre.remove(i as int));
                }
            },
            None => {
                proof {
                    lemma_find_client_char(clients_pre, idv);
                    if spec_find_client(clients_pre, idv) is Some {
                        let fi = spec_find_client(clients_pre, idv).unwrap();
                        assert(clients_pre[fi].client_id != idv);
                    }
                }
            },
        }

        // Rebuild the routing map without the entries that point to the
        // departed client.
        let entries = im_entries(&self.routing_map);
        let ghost entries_view = pre.routing;
        let mut fresh = im_new();
        let mut j: usize = 0;
        while j < entries.len()
            invariant
                j <= entries.len(),
                idv == client_id@,
                entries@.map(|i: int, e: (String, String)| (e.0@, e.1@)) == entries_view,
                entries_view.len() == entries@.len(),
                forall|i: int, k: int|
                    0 <= i < k < entries_view.len() ==> entries_view[i].0 != entries_view[k].0,
                routing_entries(fresh) == spec_routing_without(
                    entries_view.take(j as int),
                    idv,
                ),
            decreases entries.len() - j,
        {
            let ghost built = routing_entries(fresh);
            proof {
                assert(entries_view.take(j as int + 1) =~= entries_view.take(j as int).push(
                    entries_view[j as int],
                ));
                lemma_routing_without_push(
                    entries_view.take(j as int),
                    entries_view[j as int],
                    idv,
                );
            }
            if !(entries[j].1 == client_id.value) {
                proof {
                    assert(entries_view[j as int] == (entries@[j as int].0@, entries@[
                    j as int].1@));
                    lemma_routing_without_members(entries_view.take(j as int), idv);
                    assert forall|k: int| 0 <= k < built.len() implies built[k].0
                        != entries_view[j as int].0 by {
                        let w = choose|w: int|
                            0 <= w < entries_view.take(j as int).len() && built[k]
                                == entries_view.take(j as int)[w];
                        assert(entries_view[w].0 != entries_view[j as int].0);
                    };
                    lemma_im_insert_absent(
                        built,
                        entries_view[j as int].0,
                        entries_view[j as int].1,
                    );
                }
                let k = entries[j].0.clone();
                let v = entries[j].1.clone();
                im_insert(&mut fresh, k, v);
            }
            j = j + 1;
        }
        proof {
            assert(entries_view.take(entries_view.len() as int) =~= entries_view);
        }
        self.routing_map = fresh;
        proof {
            lemma_deregister_wf(pre, self@, idv);
        }
    }
}

/// Helper: registering preserves well-formedness.
proof fn lemma_register_wf(pre: EngineView, post: EngineView, a: AdapterView)
    requires
        engine_wf(pre),
        post.clients == spec_clients_insert(pre.clients, a),
        post.routing == pre.routing || exists|v: Seq<char>|
            post.routing == #[trigger] spec_im_insert(pre.routing, v, a.client_id),
    ensures
        engine_wf(post),
{
    lemma_find_client_char(pre.clients, a.client_id);
    let cs = post.clients;
    assert forall|i: int, j: int| 0 <= i < j < cs.len() implies cs[i].client_id
        != cs[j].client_id by {
        match spec_find_client(pre.clients, a.client_id) {
            Some(fi) => {
                assert(pre.clients[fi].client_id == a.client_id);
            },
            None => {},
        }
    };
    assert forall|i: int|
        0 <= i < post.routing.len() implies exists|k: int|
        0 <= k < cs.len() && cs[k].client_id == #[trigger] post.routing[i].1 by {
        if post.routing == pre.routing {
            let w = choose|w: int|
                0 <= w < pre.clients.len() && pre.clients[w].client_id == post.routing[i].1;
            match spec_find_client(pre.clients, a.client_id) {
                Some(fi) => {
                    if fi == w {
                        assert(cs[w].client_id == post.routing[i].1);
                    } else {
                        assert(cs[w] == pre.clients[w]);
                    }
                },
                None => {
                    assert(cs[w] == pre.clients[w]);
                },
            }
        } else {
            let v = choose|v: Seq<char>|
                post.routing == #[trigger] spec_im_insert(pre.routing, v, a.client_id);
            lemma_im_insert_frame(pre.routing, v, a.client_id);
            if post.routing[i] == (v, a.client_id) {
                match spec_find_client(pre.clients, a.client_id) {
                    Some(fi) => {
                        assert(cs[fi].client_id == a.client_id);
                    },
                    None => {
                        assert(cs[cs.len() - 1].client_id == a.client_id);
                    },
                }
            } else {
                assert(0 <= i < pre.routing.len() && post.routing[i] == pre.routing[i]);
                let w = choose|w: int|
                    0 <= w < pre.clients.len() && pre.clients[w].client_id == pre.routing[i].1;
                match spec_find_client(pre.clients, a.client_id) {
                    Some(fi) => {
                        if fi == w {
                            assert(cs[w].client_id == pre.clients[w].client_id);
                        } else {
                            assert(cs[w] == pre.clients[w]);
                        }
                    },
                    None => {
                        assert(cs[w] == pre.clients[w]);
                    },
                }
            }
        }
    };
    if post.routing != pre.routing {
        let v = choose|v: Seq<char>|
            post.routing == #[trigger] spec_im_insert(pre.routing, v, a.client_id);
        lemma_im_insert_frame(pre.routing, v, a.client_id);
    }
}

/// Helper: deregistering preserves well-formedness.
proof fn lemma_deregister_wf(pre: EngineView, post: EngineView, id: Seq<char>)
    requires
        engine_wf(pre),
        post.clients == spec_clients_remove(pre.clients, id),
        post.routing == spec_routing_without(pre.routing, id),
    ensures
        engine_wf(post),
{
    lemma_find_client_char(pre.clients, id);
    lemma_routing_without_members(pre.routing, id);
    lemma_routing_without_values(pre.routing, id);
    let cs = post.clients;
    assert forall|i: int, j: int| 0 <= i < j < cs.len() implies cs[i].client_id
        != cs[j].client_id by {
        match spec_find_client(pre.clients, id) {
            Some(fi) => {
                assert(cs == pre.clients.remove(fi));
            },
            None => {},
        }
    };
    assert forall|i: int, j: int| 0 <= i < j < post.routing.len() implies post.routing[i].0
        != post.routing[j].0 by {
        lemma_routing_without_unique(pre.routing, id);
    };
    assert forall|i: int|
        0 <= i < post.routing.len() implies exists|k: int|
        0 <= k < cs.len() && cs[k].client_id == #[trigger] post.routing[i].1 by {
        let w = choose|w: int|
            0 <= w < pre.routing.len() && post.routing[i] == pre.routing[w];
        assert(post.routing[i].1 != id);
        let c = choose|c: int|
            0 <= c < pre.clients.len() && pre.clients[c].client_id == pre.routing[w].1;
        match spec_find_client(pre.clients, id) {
            Some(fi) => {
                assert(pre.clients[fi].client_id == id);
                assert(c != fi);
                if c < fi {
                    assert(cs[c] == pre.clients[c]);
                } else {
                    assert(cs[c - 1] == pre.clients[c]);
                }
            },
            None => {},
        }
    };
}

/// Helper: no filtered routing entry points to the removed id.
proof fn lemma_routing_without_values(entries: Seq<(Seq<char>, Seq<char>)>, id: Seq<char>)
    ensures
        forall|k: int|
            0 <= k < spec_routing_without(entries, id).len() ==> #[trigger] spec_routing_without(
                entries,
                id,
            )[k].1 != id,
    decreases entries.len(),
{
    if entries.len() > 0 {
        lemma_routing_without_values(entries.skip(1), id);
        let tail = spec_routing_without(entries.skip(1), id);
        let whole = spec_routing_without(entries, id);
        if entries[0].1 != id {
            assert(forall|k: int| 1 <= k < whole.len() ==> whole[k] == tail[k - 1]);
        }
    }
}

/// Helper: filtering keeps the routing keys unique.
proof fn lemma_routing_without_unique(entries: Seq<(Seq<char>, Seq<char>)>, id: Seq<char>)
    requires
        forall|i: int, j: int| 0 <= i < j < entries.len() ==> entries[i].0 != entries[j].0,
    ensures
        forall|i: int, j: int|
            0 <= i < j < spec_routing_without(entries, id).len() ==> spec_routing_without(
                entries,
                id,
            )[i].0 != spec_routing_without(entries, id)[j].0,
    decreases entries.len(),
{
    if entries.len() > 0 {
        assert(forall|i: int, j: int|
            0 <= i < j < entries.skip(1).len() ==> entries.skip(1)[i].0 != entries.skip(1)[j].0);
        lemma_routing_without_unique(entries.skip(1), id);
        lemma_routing_without_members(entries.skip(1), id);
        let tail = spec_routing_without(entries.skip(1), id);
        let whole = spec_routing_without(entries, id);
        if entries[0].1 != id {
            assert forall|i: int, j: int| 0 <= i < j < whole.len() implies whole[i].0
                != whole[j].0 by {
                if i == 0 {
                    assert(whole[j] == tail[j - 1]);
                    let w = choose|w: int|
                        0 <= w < entries.skip(1).len() && tail[j - 1] == entries.skip(1)[w];
                    assert(entries[0].0 != entries[w + 1].0);
                } else {
                    assert(whole[i] == tail[i - 1] && whole[j] == tail[j - 1]);
                }
            };
        }
    }
}


/// A category of instrument-keyed subscriptions.
#[derive(Clone, Copy, PartialEq, Eq, Structural, Debug)]
pub enum IdCategory {
    Instrument,
    Deltas,
    Snapshots,
    Quote,
    Trade,
    Status,
    Close,
}

/// The instrument-keyed subscription set of one adapter for a category.
pub open spec fn adapter_ids(a: AdapterView, c: IdCategory) -> Seq<Seq<char>> {
    match c {
        IdCategory::Instrument => a.subscriptions_instrument,
        IdCategory::Deltas => a.subscriptions_order_book_delta,
        IdCategory::Snapshots => a.subscriptions_order_book_snapshot,
        IdCategory::Quote => a.subscriptions_quote_tick,
        IdCategory::Trade => a.subscriptions_trade_tick,
        IdCategory::Status => a.subscriptions_instrument_status,
        IdCategory::Close => a.subscriptions_instrument_close,
    }
}

/// The union, client by client in registration order, of one category's
/// subscription sets; duplicates across clients are kept.
pub open spec fn spec_union_ids(cs: Seq<AdapterView>, c: IdCategory) -> Seq<Seq<char>>
    decreases cs.len(),
{
    if cs.len() == 0 {
        Seq::empty()
    } else {
        spec_union_ids(cs.drop_last(), c) + adapter_ids(cs.last(), c)
    }
}

/// The union of the bar subscription sets.
pub open spec fn spec_union_bars(cs: Seq<AdapterView>) -> Seq<crate::identifiers::BarTypeView>
    decreases cs.len(),
{
    if cs.len() == 0 {
        Seq::empty()
    } else {
        spec_union_bars(cs.drop_last()) + cs.last().subscriptions_bar
    }
}

/// The union of the custom-data subscription sets.
pub open spec fn spec_union_custom(cs: Seq<AdapterView>) -> Seq<crate::messages::DataTypeView>
    decreases cs.len(),
{
    if cs.len() == 0 {
        Seq::empty()
    } else {
        spec_union_custom(cs.drop_last()) + cs.last().subscriptions_generic
    }
}

impl DataEngine {
    /// Starts every registered client, in registration order.
    pub fn start(&mut self)
        ensures
            final(self)@.clients.len() == old(self)@.clients.len(),
            forall|k: int|
                0 <= k < old(self)@.clients.len() ==> final(self)@.clients[k]
                    == crate::client::spec_adapter_start(#[trigger] old(self)@.clients[k]),
            final(self)@ == (EngineView { clients: final(self)@.clients, ..old(self)@ }),
    {
        let n = self.clients.len();
        let mut i: usize = 0;
        while i < n
            invariant
                i <= n,
                n == self.clients@.len(),
                self@.clients.len() == old(self)@.clients.len(),
                forall|k: int|
                    0 <= k < i ==> self@.clients[k] == crate::client::spec_adapter_start(
                        #[trigger] old(self)@.clients[k],
                    ),
                forall|k: int| i <= k < n ==> self@.clients[k] == old(self)@.clients[k],
                self@ == (EngineView { clients: self@.clients, ..old(self)@ }),
            decreases n - i,
        {
            let a = &mut self.clients[i];
            a.start();
            i = i + 1;
        }
    }

    /// Stops every registered client, in registration order.
    pub fn stop(&mut self)
        ensures
            final(self)@.clients.len() == old(self)@.clients.len(),
            forall|k: int|
                0 <= k < old(self)@.clients.len() ==> final(self)@.clients[k]
                    == crate::client::spec_adapter_stop(#[trigger] old(self)@.clients[k]),
            final(self)@ == (EngineView { clients: final(self)@.clients, ..old(self)@ }),
    {
        let n = self.clients.len();
        let mut i: usize = 0;
        while i < n
            invariant
                i <= n,
                n == self.clients@.len(),
                self@.clients.len() == old(self)@.clients.len(),
                forall|k: int|
                    0 <= k < i ==> self@.clients[k] == crate::client::spec_adapter_stop(
                        #[trigger] old(self)@.clients[k],
                    ),
                forall|k: int| i <= k < n ==> self@.clients[k] == old(self)@.clients[k],
                self@ == (EngineView { clients: self@.clients, ..old(self)@ }),
            decreases n - i,
        {
            let a = &mut self.clients[i];
            a.stop();
            i = i + 1;
        }
    }

    /// Resets every registered client, in registration order.
    pub fn reset(&mut self)
        ensures
            final(self)@.clients.len() == old(self)@.clients.len(),
            forall|k: int|
                0 <= k < old(self)@.clients.len() ==> final(self)@.clients[k]
                    == crate::client::spec_adapter_reset(#[trigger] old(self)@.clients[k]),
            final(self)@ == (EngineView { clients: final(self)@.clients, ..old(self)@ }),
    {
        let n = self.clients.len();
        let mut i: usize = 0;
        while i < n
            invariant
                i <= n,
                n == self.clients@.len(),
                self@.clients.len() == old(self)@.clients.len(),
                forall|k: int|
                    0 <= k < i ==> self@.clients[k] == crate::client::spec_adapter_reset(
                        #[trigger] old(self)@.clients[k],
                    ),
                forall|k: int| i <= k < n ==> self@.clients[k] == old(self)@.clients[k],
                self@ == (EngineView { clients: self@.clients, ..old(self)@ }),
            decreases n - i,
        {
            let a = &mut self.clients[i];
            a.reset();
            i = i + 1;
        }
    }

    /// Disposes every registered client, in registration order, and then
    /// cancels all clock timers.
    pub fn dispose(&mut self)
        ensures
            final(self)@.clients.len() == old(self)@.clients.len(),
            forall|k: int|
                0 <= k < old(self)@.clients.len() ==> final(self)@.clients[k]
                    == crate::client::spec_adapter_dispose(#[trigger] old(self)@.clients[k]),
            final(self)@.timers == Seq::<u64>::empty(),
            final(self)@ == (EngineView {
                clients: final(self)@.clients,
                timers: Seq::empty(),
                ..old(self)@
            }),
    {
        let n = self.clients.len();
        let mut i: usize = 0;
        while i < n
            invariant
                i <= n,
                n == self.clients@.len(),
                self@.clients.len() == old(self)@.clients.len(),
                forall|k: int|
                    0 <= k < i ==> self@.clients[k] == crate::client::spec_adapter_dispose(
                        #[trigger] old(self)@.clients[k],
                    ),
                forall|k: int| i <= k < n ==> self@.clients[k] == old(self)@.clients[k],
                self@ == (EngineView { clients: self@.clients, ..old(self)@ }),
            decreases n - i,
        {
            let a = &mut self.clients[i];
            a.dispose();
            i = i + 1;
        }
        self.clock.cancel_timers();
    }

    /// Reserved for live environments; in simulation connecting is a
    /// no-op.
    pub fn connect(&self) {
    }

    /// Reserved for live environments; in simulation disconnecting is a
    /// no-op.
    pub fn disconnect(&self) {
    }

    /// True iff every registered adapter reports connected; vacuously
    /// true with no adapters.
    pub fn check_connected(&self) -> (r: bool)
        ensures
            r == forall|k: int|
                0 <= k < self@.clients.len() ==> (#[trigger] self@.clients[k]).state
                    == AdapterState::Connected,
    {
        let n = self.clients.len();
        let mut i: usize = 0;
        while i < n
            invariant
                i <= n,
                n == self.clients@.len(),
                forall|k: int|
                    0 <= k < i ==> (#[trigger] self@.clients[k]).state == AdapterState::Connected,
            decreases n - i,
        {
            if !self.clients[i].is_connected() {
                assert(self@.clients[i as int].state != AdapterState::Connected);
                return false;
            }
            i = i + 1;
        }
        true
    }

    /// True iff no registered adapter reports connected; vacuously true
    /// with no adapters.
    pub fn check_disconnected(&self) -> (r: bool)
        ensures
            r == forall|k: int|
                0 <= k < self@.clients.len() ==> (#[trigger] self@.clients[k]).state
                    != AdapterState::Connected,
    {
        let n = self.clients.len();
        let mut i: usize = 0;
        while i < n
            invariant
                i <= n,
                n == self.clients@.len(),
                forall|k: int|
                    0 <= k < i ==> (#[trigger] self@.clients[k]).state != AdapterState::Connected,
            decreases n - i,
        {
            if self.clients[i].is_connected() {
                assert(self@.clients[i as int].state == AdapterState::Connected);
                return false;
            }
            i = i + 1;
        }
        true
    }

    /// The registered client ids, in registration order.
    pub fn registed_clients(&self) -> (r: Vec<ClientId>)
        ensures
            r@.len() == self@.clients.len(),
            forall|k: int|
                0 <= k < self@.clients.len() ==> (#[trigger] r@[k])@ == self@.clients[k].client_id,
    {
        let n = self.clients.len();
        let mut out: Vec<ClientId> = Vec::new();
        let mut i: usize = 0;
        while i < n
            invariant
                i <= n,
                n == self.clients@.len(),
                out@.len() == i,
                forall|k: int| 0 <= k < i ==> (#[trigger] out@[k])@ == self@.clients[k].client_id,
            decreases n - i,
        {
            out.push(self.clients[i].client_id.clone());
            i = i + 1;
        }
        out
    }

    /// Index of the first adapter registered under the given id.
    fn find_client_index(&self, id: &ClientId) -> (r: Option<usize>)
        ensures
            match r {
                Some(i) => spec_find_client(self@.clients, id@) == Some(i as int),
                None => spec_find_client(self@.clients, id@) is None,
            },
    {
        let n = self.clients.len();
        let mut i: usize = 0;
        while i < n
            invariant
                i <= n,
                n == self.clients@.len(),
                forall|k: int| 0 <= k < i ==> self@.clients[k].client_id != id@,
            decreases n - i,
        {
            if self.clients[i].client_id == *id {
                proof {
                    lemma_find_client_char(self@.clients, id@);
                    match spec_find_client(self@.clients, id@) {
                        Some(fi) => {
                            assert(fi == i as int) by {
                                if fi < i as int {
                                    assert(self@.clients[fi].client_id != id@);
                                }
                                if fi > i as int {
                                    assert(self@.clients[i as int].client_id != id@);
                                }
                            };
                        },
                        None => {
                            assert(self@.clients[i as int].client_id != id@);
                        },
                    }
                }
                return Some(i);
            }
            i = i + 1;
        }
        proof {
            lemma_find_client_char(self@.clients, id@);
            if spec_find_client(self@.clients, id@) is Some {
                let fi = spec_find_client(self@.clients, id@).unwrap();
                assert(self@.clients[fi].client_id != id@);
            }
        }
        None
    }
}

/// The adapter a message resolves to: the one registered under the client
/// id; else the one the venue routes to; else the default; else none.
pub open spec fn spec_get_client(e: EngineView, cid: Seq<char>, v: Seq<char>) -> Option<
    AdapterView,
> {
    match spec_find_client(e.clients, cid) {
        Some(i) => Some(e.clients[i]),
        None => match spec_routing_get(e.routing, v) {
            Some(rid) => match spec_find_client(e.clients, rid) {
                Some(j) => Some(e.clients[j]),
                None => e.default_client,
            },
            None => e.default_client,
        },
    }
}

impl DataEngine {
    /// Resolves the adapter a message addresses: by client id, then by
    /// the venue's route, then the default client, else none.
    pub fn get_client(&self, client_id: &ClientId, venue: &Venue) -> (r: Option<
        &DataClientAdapter,
    >)
        ensures
            match r {
                Some(a) => spec_get_client(self@, client_id@, venue@) == Some(a@),
                None => spec_get_client(self@, client_id@, venue@) is None,
            },
    {
        match self.find_client_index(client_id) {
            Some(i) => {
                proof {
                    lemma_find_client_char(self@.clients, client_id@);
                }
                Some(&self.clients[i])
            },
            None => {
                match im_get(&self.routing_map, &venue.value) {
                    Some(rid) => {
                        let rid_key = ClientId::new(rid.clone());
                        match self.find_client_index(&rid_key) {
                            Some(j) => {
                                proof {
                                    lemma_find_client_char(self@.clients, rid_key@);
                                }
                                Some(&self.clients[j])
                            },
                            None => match &self.default_client {
                                Some(d) => Some(d),
                                None => None,
                            },
                        }
                    },
                    None => match &self.default_client {
                        Some(d) => Some(d),
                        None => None,
                    },
                }
            },
        }
    }
}


/// Helper: one more client's set joins the union.
proof fn lemma_union_ids_take(cs: Seq<AdapterView>, c: IdCategory, i: int)
    requires
        0 <= i < cs.len(),
    ensures
        spec_union_ids(cs.take(i + 1), c) == spec_union_ids(cs.take(i), c) + adapter_ids(
            cs[i],
            c,
        ),
{
    assert(cs.take(i + 1).last() == cs[i]);
    assert(cs.take(i + 1).drop_last() =~= cs.take(i));
}

/// Helper: one more client's bar set joins the union.
proof fn lemma_union_bars_take(cs: Seq<AdapterView>, i: int)
    requires
        0 <= i < cs.len(),
    ensures
        spec_union_bars(cs.take(i + 1)) == spec_union_bars(cs.take(i))
            + cs[i].subscriptions_bar,
{
    assert(cs.take(i + 1).last() == cs[i]);
    assert(cs.take(i + 1).drop_last() =~= cs.take(i));
}

/// Helper: one more client's custom set joins the union.
proof fn lemma_union_custom_take(cs: Seq<AdapterView>, i: int)
    requires
        0 <= i < cs.len(),
    ensures
        spec_union_custom(cs.take(i + 1)) == spec_union_custom(cs.take(i))
            + cs[i].subscriptions_generic,
{
    assert(cs.take(i + 1).last() == cs[i]);
    assert(cs.take(i + 1).drop_last() =~= cs.take(i));
}

impl DataEngine {
    /// The union across clients of one instrument-keyed category.
    fn collect_ids(&self, c: IdCategory) -> (r: Vec<InstrumentId>)
        ensures
            r@.map(|i: int, x: InstrumentId| x@) == spec_union_ids(self@.clients, c),
    {
        let ghost cs = self@.clients;
        let mut out: Vec<InstrumentId> = Vec::new();
        let n = self.clients.len();
        let mut i: usize = 0;
        proof {
            assert(out@.map(|k: int, x: InstrumentId| x@) =~= Seq::<Seq<char>>::empty());
            assert(cs.take(0) =~= Seq::<AdapterView>::empty());
        }
        while i < n
            invariant
                i <= n,
                n == self.clients@.len(),
                cs == self@.clients,
                cs.len() == n,
                out@.map(|k: int, x: InstrumentId| x@) == spec_union_ids(cs.take(i as int), c),
            decreases n - i,
        {
            let ghost base = out@.map(|k: int, x: InstrumentId| x@);
            let src: &Vec<InstrumentId> = match c {
                IdCategory::Instrument => &self.clients[i].subscriptions_instrument,
                IdCategory::Deltas => &self.clients[i].subscriptions_order_book_delta,
                IdCategory::Snapshots => &self.clients[i].subscriptions_order_book_snapshot,
                IdCategory::Quote => &self.clients[i].subscriptions_quote_tick,
                IdCategory::Trade => &self.clients[i].subscriptions_trade_tick,
                IdCategory::Status => &self.clients[i].subscriptions_instrument_status,
                IdCategory::Close => &self.clients[i].subscriptions_instrument_close,
            };
            let ghost srcv = src@.map(|k: int, x: InstrumentId| x@);
            proof {
                assert(srcv == adapter_ids(cs[i as int], c));
            }
            let m = src.len();
            let mut j: usize = 0;
            while j < m
                invariant
                    j <= m,
                    m == src@.len(),
                    srcv == src@.map(|k: int, x: InstrumentId| x@),
                    srcv.len() == m,
                    out@.map(|k: int, x: InstrumentId| x@) == base + srcv.take(j as int),
                decreases m - j,
            {
                let ghost prevmap = out@.map(|k: int, x: InstrumentId| x@);
                out.push(src[j].clone());
                proof {
                    assert(out@.map(|k: int, x: InstrumentId| x@) =~= prevmap.push(srcv[j as int]));
                    assert(prevmap.push(srcv[j as int]) =~= base + srcv.take(j as int + 1));
                }
                j = j + 1;
            }
            proof {
                assert(srcv.take(m as int) =~= srcv);
                lemma_union_ids_take(cs, c, i as int);
            }
            i = i + 1;
        }
        proof {
            assert(cs.take(n as int) =~= cs);
        }
        out
    }

    /// The custom-data subscriptions of all clients, in registration
    /// order; duplicates across clients are kept.
    pub fn subscribed_custom_data(&self) -> (r: Vec<DataType>)
        ensures
            r@.map(|i: int, x: DataType| x@) == spec_union_custom(self@.clients),
    {
        let ghost cs = self@.clients;
        let mut out: Vec<DataType> = Vec::new();
        let n = self.clients.len();
        let mut i: usize = 0;
        proof {
            assert(out@.map(|k: int, x: DataType| x@) =~= Seq::<
                crate::messages::DataTypeView,
            >::empty());
            assert(cs.take(0) =~= Seq::<AdapterView>::empty());
        }
        while i < n
            invariant
                i <= n,
                n == self.clients@.len(),
                cs == self@.clients,
                cs.len() == n,
                out@.map(|k: int, x: DataType| x@) == spec_union_custom(cs.take(i as int)),
            decreases n - i,
        {
            let ghost base = out@.map(|k: int, x: DataType| x@);
            let src = &self.clients[i].subscriptions_generic;
            let ghost srcv = src@.map(|k: int, x: DataType| x@);
            proof {
                assert(srcv == cs[i as int].subscriptions_generic);
            }
            let m = src.len();
            let mut j: usize = 0;
            while j < m
                invariant
                    j <= m,
                    m == src@.len(),
                    srcv == src@.map(|k: int, x: DataType| x@),
                    srcv.len() == m,
                    out@.map(|k: int, x: DataType| x@) == base + srcv.take(j as int),
                decreases m - j,
            {
                let ghost prevmap = out@.map(|k: int, x: DataType| x@);
                out.push(src[j].clone());
                proof {
                    assert(out@.map(|k: int, x: DataType| x@) =~= prevmap.push(srcv[j as int]));
                    assert(prevmap.push(srcv[j as int]) =~= base + srcv.take(j as int + 1));
                }
                j = j + 1;
            }
            proof {
                assert(srcv.take(m as int) =~= srcv);
                lemma_union_custom_take(cs, i as int);
            }
            i = i + 1;
        }
        proof {
            assert(cs.take(n as int) =~= cs);
        }
        out
    }

    /// The bar subscriptions of all clients, in registration order;
    /// duplicates across clients are kept.
    pub fn subscribed_bars(&self) -> (r: Vec<BarType>)
        ensures
            r@.map(|i: int, x: BarType| x@) == spec_union_bars(self@.clients),
    {
        let ghost cs = self@.clients;
        let mut out: Vec<BarType> = Vec::new();
        let n = self.clients.len();
        let mut i: usize = 0;
        proof {
            assert(out@.map(|k: int, x: BarType| x@) =~= Seq::<
                crate::identifiers::BarTypeView,
            >::empty());
            assert(cs.take(0) =~= Seq::<AdapterView>::empty());
        }
        while i < n
            invariant
                i <= n,
                n == self.clients@.len(),
                cs == self@.clients,
                cs.len() == n,
                out@.map(|k: int, x: BarType| x@) == spec_union_bars(cs.take(i as int)),
            decreases n - i,
        {
            let ghost base = out@.map(|k: int, x: BarType| x@);
            let src = &self.clients[i].subscriptions_bar;
            let ghost srcv = src@.map(|k: int, x: BarType| x@);
            proof {
                assert(srcv == cs[i as int].subscriptions_bar);
            }
            let m = src.len();
            let mut j: usize = 0;
            while j < m
                invariant
                    j <= m,
                    m == src@.len(),
                    srcv == src@.map(|k: int, x: BarType| x@),
                    srcv.len() == m,
                    out@.map(|k: int, x: BarType| x@) == base + srcv.take(j as int),
                decreases m - j,
            {
                let ghost prevmap = out@.map(|k: int, x: BarType| x@);
                out.push(src[j].clone());
                proof {
                    assert(out@.map(|k: int, x: BarType| x@) =~= prevmap.push(srcv[j as int]));
                    assert(prevmap.push(srcv[j as int]) =~= base + srcv.take(j as int + 1));
                }
                j = j + 1;
            }
            proof {
                assert(srcv.take(m as int) =~= srcv);
                lemma_union_bars_take(cs, i as int);
            }
            i = i + 1;
        }
        proof {
            assert(cs.take(n as int) =~= cs);
        }
        out
    }

    /// The instrument subscriptions of all clients.
    pub fn subscribed_instruments(&self) -> (r: Vec<InstrumentId>)
        ensures
            r@.map(|i: int, x: InstrumentId| x@) == spec_union_ids(
                self@.clients,
                IdCategory::Instrument,
            ),
    {
        self.collect_ids(IdCategory::Instrument)
    }

    /// The order-book delta subscriptions of all clients.
    pub fn subscribed_order_book_deltas(&self) -> (r: Vec<InstrumentId>)
        ensures
            r@.map(|i: int, x: InstrumentId| x@) == spec_union_ids(
                self@.clients,
                IdCategory::Deltas,
            ),
    {
        self.collect_ids(IdCategory::Deltas)
    }

    /// The order-book snapshot subscriptions of all clients.
    pub fn subscribed_order_book_snapshots(&self) -> (r: Vec<InstrumentId>)
        ensures
            r@.map(|i: int, x: InstrumentId| x@) == spec_union_ids(
                self@.clients,
                IdCategory::Snapshots,
            ),
    {
        self.collect_ids(IdCategory::Snapshots)
    }

    /// The quote subscriptions of all clients.
    pub fn subscribed_quote_ticks(&self) -> (r: Vec<InstrumentId>)
        ensures
            r@.map(|i: int, x: InstrumentId| x@) == spec_union_ids(
                self@.clients,
                IdCategory::Quote,
            ),
    {
        self.collect_ids(IdCategory::Quote)
    }

    /// The trade subscriptions of all clients.
    pub fn subscribed_trade_ticks(&self) -> (r: Vec<InstrumentId>)
        ensures
            r@.map(|i: int, x: InstrumentId| x@) == spec_union_ids(
                self@.clients,
                IdCategory::Trade,
            ),
    {
        self.collect_ids(IdCategory::Trade)
    }

    /// The instrument-status subscriptions of all clients.
    pub fn subscribed_instrument_status(&self) -> (r: Vec<InstrumentId>)
        ensures
            r@.map(|i: int, x: InstrumentId| x@) == spec_union_ids(
                self@.clients,
                IdCategory::Status,
            ),
    {
        self.collect_ids(IdCategory::Status)
    }

    /// The instrument-close subscriptions of all clients.
    pub fn subscribed_instrument_close(&self) -> (r: Vec<InstrumentId>)
        ensures
            r@.map(|i: int, x: InstrumentId| x@) == spec_union_ids(
                self@.clients,
                IdCategory::Close,
            ),
    {
        self.collect_ids(IdCategory::Close)
    }
}


/// The deltas buffered for an instrument; none buffered reads as empty.
pub open spec fn spec_buffer_get(
    bufs: Seq<(Seq<char>, Seq<OrderBookDeltaView>)>,
    id: Seq<char>,
) -> Seq<OrderBookDeltaView> {
    match spec_find_buffer(bufs, id) {
        Some(i) => bufs[i].1,
        None => Seq::empty(),
    }
}

/// The buffer map with an instrument's deltas replaced (or started).
pub open spec fn spec_buffer_update(
    bufs: Seq<(Seq<char>, Seq<OrderBookDeltaView>)>,
    id: Seq<char>,
    s: Seq<OrderBookDeltaView>,
) -> Seq<(Seq<char>, Seq<OrderBookDeltaView>)> {
    match spec_find_buffer(bufs, id) {
        Some(i) => bufs.update(i, (id, s)),
        None => bufs.push((id, s)),
    }
}

/// The buffer map with an instrument's entry removed.
pub open spec fn spec_buffer_remove(
    bufs: Seq<(Seq<char>, Seq<OrderBookDeltaView>)>,
    id: Seq<char>,
) -> Seq<(Seq<char>, Seq<OrderBookDeltaView>)> {
    match spec_find_buffer(bufs, id) {
        Some(i) => bufs.remove(i),
        None => bufs,
    }
}

/// An engine after one publication on its bus.
pub open spec fn spec_engine_publish(
    e: EngineView,
    topic: TopicView,
    payload: PayloadView,
) -> EngineView {
    EngineView { msgbus: spec_bus_publish(e.msgbus, topic, payload), ..e }
}

/// Whether a bar is admitted: with sequence validation on, both of its
/// timestamps must not regress against the last cached bar of its type.
pub open spec fn spec_bar_accepted(e: EngineView, b: BarView) -> bool {
    !e.config.validate_data_sequence || match spec_last_bar(e.cache.bars, b.bar_type) {
        Some(last) => b.ts_event >= last.ts_event && b.ts_init >= last.ts_init,
        None => true,
    }
}

/// An engine after one bar: an admitted bar is cached and published on
/// its bar-type topic; a regressing bar is dropped whole.
pub open spec fn spec_handle_bar(e: EngineView, b: BarView) -> EngineView {
    if spec_bar_accepted(e, b) {
        spec_engine_publish(
            EngineView { cache: CacheView { bars: e.cache.bars.push(b), ..e.cache }, ..e },
            TopicView::Bar(b.bar_type),
            PayloadView::Bar(b),
        )
    } else {
        e
    }
}

/// An engine after one quote: the quote is cached, then published on the
/// instrument's quote topic.
pub open spec fn spec_handle_quote(e: EngineView, q: crate::data::QuoteTickView) -> EngineView {
    spec_engine_publish(
        EngineView { cache: CacheView { quotes: e.cache.quotes.push(q), ..e.cache }, ..e },
        TopicView::Quote(q.instrument_id),
        PayloadView::Quote(q),
    )
}

/// An engine after one trade: the trade is cached, then published on the
/// instrument's trade topic.
pub open spec fn spec_handle_trade(e: EngineView, t: crate::data::TradeTickView) -> EngineView {
    spec_engine_publish(
        EngineView { cache: CacheView { trades: e.cache.trades.push(t), ..e.cache }, ..e },
        TopicView::Trade(t.instrument_id),
        PayloadView::Trade(t),
    )
}

/// An engine after one instrument record: cached, then published on the
/// instrument topic.
pub open spec fn spec_handle_instrument(
    e: EngineView,
    ins: crate::data::InstrumentView,
) -> EngineView {
    spec_engine_publish(
        EngineView {
            cache: CacheView { instruments: e.cache.instruments.push(ins), ..e.cache },
            ..e
        },
        TopicView::Instrument(ins.id),
        PayloadView::Instrument(ins),
    )
}

/// An engine after a batch of deltas: applied to the managed book, then
/// published on the deltas topic.
pub open spec fn spec_handle_deltas(e: EngineView, ds: OrderBookDeltasView) -> EngineView {
    spec_engine_publish(
        EngineView {
            cache: CacheView {
                books: spec_books_apply(e.cache.books, DataView::Deltas(ds)),
                ..e.cache
            },
            ..e
        },
        TopicView::Deltas(ds.instrument_id),
        PayloadView::Deltas(ds),
    )
}

/// An engine after a depth snapshot: applied to the managed book, then
/// published on the depth topic.
pub open spec fn spec_handle_depth10(
    e: EngineView,
    d: crate::data::OrderBookDepth10View,
) -> EngineView {
    spec_engine_publish(
        EngineView {
            cache: CacheView {
                books: spec_books_apply(e.cache.books, DataView::Depth10(d)),
                ..e.cache
            },
            ..e
        },
        TopicView::Depth(d.instrument_id),
        PayloadView::Depth10(d),
    )
}

/// An engine after one delta. Without buffering the delta is applied to
/// the managed book and published at once. With buffering it joins the
/// instrument's buffer; a delta marked last flushes the whole buffer as
/// one atomic batch through the deltas path, leaving the buffer empty.
pub open spec fn spec_handle_delta(e: EngineView, d: OrderBookDeltaView) -> EngineView {
    let id = d.instrument_id;
    if !e.config.buffer_deltas {
        spec_engine_publish(
            EngineView {
                cache: CacheView {
                    books: spec_books_apply(e.cache.books, DataView::Delta(d)),
                    ..e.cache
                },
                ..e
            },
            TopicView::Delta(id),
            PayloadView::Delta(d),
        )
    } else {
        let buf = spec_buffer_get(e.buffered, id).push(d);
        if !spec_is_last(d.flags) {
            EngineView { buffered: spec_buffer_update(e.buffered, id, buf), ..e }
        } else {
            let flushed = EngineView {
                buffered: spec_buffer_remove(spec_buffer_update(e.buffered, id, buf), id),
                ..e
            };
            let ev = OrderBookDeltasView {
                instrument_id: id,
                deltas: buf,
                ts_event: d.ts_event,
                ts_init: d.ts_init,
            };
            spec_handle_deltas(flushed, ev)
        }
    }
}

/// An engine after one inbound data event, by its kind.
pub open spec fn spec_process(e: EngineView, d: DataView) -> EngineView {
    match d {
        DataView::Delta(x) => spec_handle_delta(e, x),
        DataView::Deltas(x) => spec_handle_deltas(e, x),
        DataView::Depth10(x) => spec_handle_depth10(e, x),
        DataView::Quote(x) => spec_handle_quote(e, x),
        DataView::Trade(x) => spec_handle_trade(e, x),
        DataView::Bar(x) => spec_handle_bar(e, x),
    }
}

impl DataEngine {
    /// Index of the delta buffer for the given instrument.
    fn find_buffer_index(&self, id: &InstrumentId) -> (r: Option<usize>)
        ensures
            match r {
                Some(i) => spec_find_buffer(self@.buffered, id@) == Some(i as int),
                None => spec_find_buffer(self@.buffered, id@) is None,
            },
    {
        let n = self.buffered_deltas_map.len();
        let mut i: usize = 0;
        while i < n
            invariant
                i <= n,
                n == self.buffered_deltas_map@.len(),
                forall|k: int| 0 <= k < i ==> self@.buffered[k].0 != id@,
            decreases n - i,
        {
            if self.buffered_deltas_map[i].0 == *id {
                proof {
                    lemma_find_buffer_char(self@.buffered, id@);
                    match spec_find_buffer(self@.buffered, id@) {
                        Some(fi) => {
                            assert(fi == i as int) by {
                                if fi < i as int {
                                    assert(self@.buffered[fi].0 != id@);
                                }
                                if fi > i as int {
                                    assert(self@.buffered[i as int].0 != id@);
                                }
                            };
                        },
                        None => {
                            assert(self@.buffered[i as int].0 != id@);
                        },
                    }
                }
                return Some(i);
            }
            i = i + 1;
        }
        proof {
            lemma_find_buffer_char(self@.buffered, id@);
            if spec_find_buffer(self@.buffered, id@) is Some {
                let fi = spec_find_buffer(self@.buffered, id@).unwrap();
                assert(self@.buffered[fi].0 != id@);
            }
        }
        None
    }

    /// Applies a data event to the managed book of its instrument, if the
    /// engine manages one; an externally managed instrument has no book
    /// here and the event leaves the cache untouched.
    fn update_order_book(&mut self, data: &Data)
        ensures
            final(self)@ == (EngineView {
                cache: CacheView {
                    books: spec_books_apply(old(self)@.cache.books, data@),
                    ..old(self)@.cache
                },
                ..old(self)@
            }),
    {
        let _applied = self.cache.apply_to_book(data);
    }

    /// Handles one instrument record: cache, then publish.
    pub fn handle_instrument(&mut self, instrument: Instrument)
        ensures
            final(self)@ == spec_handle_instrument(old(self)@, instrument@),
    {
        let id = instrument.id.clone();
        self.cache.add_instrument(instrument.clone());
        let topic = self.msgbus.switchboard.get_instrument_topic(id);
        self.msgbus.publish(topic, Payload::Instrument(instrument));
    }

    /// Handles one quote: cache, then publish on the quote topic.
    fn handle_quote(&mut self, quote: QuoteTick)
        ensures
            final(self)@ == spec_handle_quote(old(self)@, quote@),
    {
        let id = quote.instrument_id.clone();
        self.cache.add_quote(quote.clone());
        let topic = self.msgbus.switchboard.get_quote_topic(id);
        self.msgbus.publish(topic, Payload::Quote(quote));
    }

    /// Handles one trade: cache, then publish on the trade topic.
    fn handle_trade(&mut self, trade: TradeTick)
        ensures
            final(self)@ == spec_handle_trade(old(self)@, trade@),
    {
        let id = trade.instrument_id.clone();
        self.cache.add_trade(trade.clone());
        let topic = self.msgbus.switchboard.get_trade_topic(id);
        self.msgbus.publish(topic, Payload::Trade(trade));
    }

    /// Handles one bar: with sequence validation on, a bar whose
    /// timestamps regress against the last cached bar of its type is
    /// dropped; otherwise the bar is cached and published.
    fn handle_bar(&mut self, bar: Bar)
        ensures
            final(self)@ == spec_handle_bar(old(self)@, bar@),
    {
        if self.config.validate_data_sequence {
            match self.cache.bar(&bar.bar_type) {
                Some(last) => {
                    if bar.ts_event < last.ts_event {
                        return ;
                    }
                    if bar.ts_init < last.ts_init {
                        return ;
                    }
                },
                None => {},
            }
        }
        let bt = bar.bar_type.clone();
        self.cache.add_bar(bar.clone());
        let topic = self.msgbus.switchboard.get_bar_topic(bt);
        self.msgbus.publish(topic, Payload::Bar(bar));
    }

    /// Handles an atomic batch of deltas: book, then publish.
    fn handle_deltas(&mut self, deltas: OrderBookDeltas)
        ensures
            final(self)@ == spec_handle_deltas(old(self)@, deltas@),
    {
        let d = Data::Deltas(deltas);
        self.update_order_book(&d);
        match d {
            Data::Deltas(ds) => {
                let id = ds.instrument_id.clone();
                let topic = self.msgbus.switchboard.get_deltas_topic(id);
                self.msgbus.publish(topic, Payload::Deltas(ds));
            },
            _ => {},
        }
    }

    /// Handles a depth snapshot: book, then publish.
    fn handle_depth10(&mut self, depth: OrderBookDepth10)
        ensures
            final(self)@ == spec_handle_depth10(old(self)@, depth@),
    {
        let d = Data::Depth10(depth);
        self.update_order_book(&d);
        match d {
            Data::Depth10(x) => {
                let id = x.instrument_id.clone();
                let topic = self.msgbus.switchboard.get_depth_topic(id);
                self.msgbus.publish(topic, Payload::Depth10(x));
            },
            _ => {},
        }
    }

    /// Handles one delta, buffering it when configured to; a delta marked
    /// last flushes the buffer as one atomic batch.
    #[verifier::rlimit(100)]
    fn handle_delta(&mut self, delta: OrderBookDelta)
        ensures
            final(self)@ == spec_handle_delta(old(self)@, delta@),
    {
        let ghost pre = self@;
        let ghost dv = delta@;
        if !self.config.buffer_deltas {
            let d = Data::Delta(delta);
            self.update_order_book(&d);
            match d {
                Data::Delta(x) => {
                    let id = x.instrument_id.clone();
                    let topic = self.msgbus.switchboard.get_delta_topic(id);
                    self.msgbus.publish(topic, Payload::Delta(x));
                },
                _ => {},
            }
            return ;
        }
        let iid = delta.instrument_id.clone();
        let ghost id = iid@;
        let idx = self.find_buffer_index(&iid);
        let last = crate::data::is_last_flag(delta.flags);
        let ghost buf_after = spec_buffer_get(pre.buffered, id).push(dv);
        match idx {
            Some(i) => {
                proof {
                    lemma_find_buffer_char(pre.buffered, id);
                }
                let entry = &mut self.buffered_deltas_map[i];
                entry.1.push(delta.clone());
                proof {
                    assert(self@.buffered =~~= spec_buffer_update(pre.buffered, id, buf_after));
                }
            },
            None => {
                let mut v: Vec<OrderBookDelta> = Vec::new();
                v.push(delta.clone());
                self.buffered_deltas_map.push((iid.clone(), v));
                proof {
                    assert(spec_buffer_get(pre.buffered, id) =~= Seq::<
                        OrderBookDeltaView,
                    >::empty());
                    assert(self@.buffered =~~= spec_buffer_update(pre.buffered, id, buf_after));
                }
            },
        }
        let ghost mid = self@;
        proof {
            assert(mid == (EngineView {
                buffered: spec_buffer_update(pre.buffered, id, buf_after),
                ..pre
            }));
        }
        if last {
            let j: usize = match idx {
                Some(i) => i,
                None => self.buffered_deltas_map.len() - 1,
            };
            proof {
                lemma_find_buffer_char(pre.buffered, id);
                lemma_find_buffer_char(mid.buffered, id);
                assert(mid.buffered[j as int].0 == id);
                match spec_find_buffer(mid.buffered, id) {
                    Some(fi) => {
                        assert(fi == j as int) by {
                            if fi < j as int {
                                assert(mid.buffered[fi].0 != id);
                            }
                            if fi > j as int {
                                assert(mid.buffered[j as int].0 != id);
                            }
                        };
                    },
                    None => {
                        assert(mid.buffered[j as int].0 != id);
                    },
                }
            }
            let entry = self.buffered_deltas_map.remove(j);
            let ev = OrderBookDeltas {
                instrument_id: entry.0,
                deltas: entry.1,
                ts_event: delta.ts_event,
                ts_init: delta.ts_init,
            };
            proof {
                assert(self@.buffered =~~= spec_buffer_remove(mid.buffered, id));
                assert(ev@.deltas == buf_after);
                assert(ev@.instrument_id == id);
            }
            self.handle_deltas(ev);
        }
    }

    /// Processes one inbound data event: tag-dispatch to the matching
    /// handler. A data event never fails; a dropped event leaves the
    /// engine unchanged.
    #[verifier::rlimit(100)]
    pub fn process(&mut self, data: Data)
        ensures
            final(self)@ == spec_process(old(self)@, data@),
    {
        match data {
            Data::Delta(x) => self.handle_delta(x),
            Data::Deltas(x) => self.handle_deltas(x),
            Data::Depth10(x) => self.handle_depth10(x),
            Data::Quote(x) => self.handle_quote(x),
            Data::Trade(x) => self.handle_trade(x),
            Data::Bar(x) => self.handle_bar(x),
        }
    }

    /// Executes a message from the command endpoint. A subscription
    /// command addressed to a registered client updates that client;
    /// commands for unknown clients, and payloads that are not
    /// subscription commands, are dropped with nothing changed — a
    /// command never falls back to routing or the default client.
    pub fn execute(&mut self, msg: &EngineMessage)
        ensures
            msg matches EngineMessage::Command(cmd) ==> (match spec_find_client(
                old(self)@.clients,
                cmd@.client_id,
            ) {
                Some(i) => exists|key: SubscriptionKeyView|
                    #[trigger] spec_classified(cmd@.data_type, key) && final(self)@
                        == (EngineView {
                        clients: old(self)@.clients.update(
                            i,
                            spec_adapter_apply(old(self)@.clients[i], key, cmd@),
                        ),
                        ..old(self)@
                    }),
                None => final(self)@ == old(self)@,
            }),
            !(msg matches EngineMessage::Command(_)) ==> final(self)@ == old(self)@,
    {
        match msg {
            EngineMessage::Command(cmd) => {
                match self.find_client_index(&cmd.client_id) {
                    Some(i) => {
                        proof {
                            lemma_find_client_char(self@.clients, cmd@.client_id);
                        }
                        let ghost pre = self@;
                        let ghost target = self@.clients[i as int];
                        let a = &mut self.clients[i];
                        a.execute(cmd.clone());
                        proof {
                            let key = choose|key: SubscriptionKeyView|
                                #[trigger] spec_classified(cmd@.data_type, key) && a@
                                    == spec_adapter_apply(target, key, cmd@);
                            assert(self@.clients =~= pre.clients.update(
                                i as int,
                                spec_adapter_apply(target, key, cmd@),
                            ));
                        }
                    },
                    None => {},
                }
            },
            _ => {},
        }
    }

    /// Routes a data request to the client it addresses, by client id
    /// only; a request for an unknown client is dropped.
    pub fn request(&mut self, req: DataRequest)
        ensures
            match spec_find_client(old(self)@.clients, req@.client_id) {
                Some(i) => final(self)@ == (EngineView {
                    clients: old(self)@.clients.update(
                        i,
                        AdapterView {
                            backend_requests: old(self)@.clients[i].backend_requests.push(req@),
                            ..old(self)@.clients[i]
                        },
                    ),
                    ..old(self)@
                }),
                None => final(self)@ == old(self)@,
            },
    {
        match self.find_client_index(&req.client_id) {
            Some(i) => {
                proof {
                    lemma_find_client_char(self@.clients, req@.client_id);
                }
                let ghost pre = self@;
                let ghost target = self@.clients[i as int];
                let a = &mut self.clients[i];
                a.request(req);
                proof {
                    assert(self@.clients =~= pre.clients.update(i as int, a@));
                }
            },
            None => {},
        }
    }

    /// Hands a subscription command straight through to the adapter it
    /// resolves to — by client id, then venue route, then the default
    /// client — without touching subscription sets. Unresolvable commands
    /// are dropped.
    pub fn send_subscription_command(&mut self, message: SubscriptionCommand)
        ensures
            ({
                let e = old(self)@;
                let fwd = |a: AdapterView|
                    AdapterView { backend_commands: a.backend_commands.push(message@), ..a };
                match spec_find_client(e.clients, message@.client_id) {
                    Some(i) => final(self)@ == (EngineView {
                        clients: e.clients.update(i, fwd(e.clients[i])),
                        ..e
                    }),
                    None => match spec_routing_get(e.routing, message@.venue) {
                        Some(rid) => match spec_find_client(e.clients, rid) {
                            Some(j) => final(self)@ == (EngineView {
                                clients: e.clients.update(j, fwd(e.clients[j])),
                                ..e
                            }),
                            None => match e.default_client {
                                Some(d) => final(self)@ == (EngineView {
                                    default_client: Some(fwd(d)),
                                    ..e
                                }),
                                None => final(self)@ == e,
                            },
                        },
                        None => match e.default_client {
                            Some(d) => final(self)@ == (EngineView {
                                default_client: Some(fwd(d)),
                                ..e
                            }),
                            None => final(self)@ == e,
                        },
                    },
                }
            }),
    {
        match self.find_client_index(&message.client_id) {
            Some(i) => {
                proof {
                    lemma_find_client_char(self@.clients, message@.client_id);
                }
                let ghost pre = self@;
                let a = &mut self.clients[i];
                a.through_execute(message);
                proof {
                    assert(self@.clients =~= pre.clients.update(i as int, a@));
                }
                return ;
            },
            None => {},
        }
        let routed: Option<ClientId> = match im_get(&self.routing_map, &message.venue.value) {
            Some(rid) => Some(ClientId::new(rid.clone())),
            None => None,
        };
        match routed {
            Some(rid) => {
                match self.find_client_index(&rid) {
                    Some(j) => {
                        proof {
                            lemma_find_client_char(self@.clients, rid@);
                        }
                        let ghost pre = self@;
                        let a = &mut self.clients[j];
                        a.through_execute(message);
                        proof {
                            assert(self@.clients =~= pre.clients.update(j as int, a@));
                        }
                        return ;
                    },
                    None => {},
                }
                match &mut self.default_client {
                    Some(d) => {
                        d.through_execute(message);
                    },
                    None => {},
                }
            },
            None => {
                match &mut self.default_client {
                    Some(d) => {
                        d.through_execute(message);
                    },
                    None => {},
                }
            },
        }
    }
}

/// An engine after a data response: the typed payload is written to the
/// cache in bulk — unknown kinds arrive as raw bytes and leave the cache
/// untouched — and the response is republished, after the cache writes.
pub open spec fn spec_response(e: EngineView, r: crate::messages::DataResponseView) -> EngineView {
    let cache = match r.payload {
        crate::messages::ResponsePayloadView::Instruments(s) => CacheView {
            instruments: e.cache.instruments + s,
            ..e.cache
        },
        crate::messages::ResponsePayloadView::Quotes(s) => CacheView {
            quotes: e.cache.quotes + s,
            ..e.cache
        },
        crate::messages::ResponsePayloadView::Trades(s) => CacheView {
            trades: e.cache.trades + s,
            ..e.cache
        },
        crate::messages::ResponsePayloadView::Bars(s) => CacheView {
            bars: e.cache.bars + s,
            ..e.cache
        },
        crate::messages::ResponsePayloadView::Custom(_) => e.cache,
    };
    EngineView {
        cache,
        msgbus: MessageBusView { responses: e.msgbus.responses.push(r), ..e.msgbus },
        ..e
    }
}

impl DataEngine {
    /// Receives a client's response: decodes the typed payload, performs
    /// the bulk cache insert for known kinds, and always republishes the
    /// response, cache writes first.
    pub fn response(&mut self, resp: DataResponse)
        ensures
            final(self)@ == spec_response(old(self)@, resp@),
    {
        let payload = resp.payload.clone();
        match payload {
            ResponsePayload::Instruments(v) => self.handle_instruments(v),
            ResponsePayload::Quotes(v) => self.handle_quotes(v),
            ResponsePayload::Trades(v) => self.handle_trades(v),
            ResponsePayload::Bars(v) => self.handle_bars(v),
            ResponsePayload::Custom(_) => {},
        }
        self.msgbus.send_response(resp);
    }

    /// Bulk-inserts instrument records from a response.
    fn handle_instruments(&mut self, instruments: Vec<Instrument>)
        ensures
            final(self)@ == (EngineView {
                cache: CacheView {
                    instruments: old(self)@.cache.instruments + instruments@.map(
                        |i: int, x: Instrument| x@,
                    ),
                    ..old(self)@.cache
                },
                ..old(self)@
            }),
    {
        self.cache.add_instruments(instruments);
    }

    /// Bulk-inserts quotes from a response.
    fn handle_quotes(&mut self, quotes: Vec<QuoteTick>)
        ensures
            final(self)@ == (EngineView {
                cache: CacheView {
                    quotes: old(self)@.cache.quotes + quotes@.map(|i: int, x: QuoteTick| x@),
                    ..old(self)@.cache
                },
                ..old(self)@
            }),
    {
        self.cache.add_quotes(quotes);
    }

    /// Bulk-inserts trades from a response.
    fn handle_trades(&mut self, trades: Vec<TradeTick>)
        ensures
            final(self)@ == (EngineView {
                cache: CacheView {
                    trades: old(self)@.cache.trades + trades@.map(|i: int, x: TradeTick| x@),
                    ..old(self)@.cache
                },
                ..old(self)@
            }),
    {
        self.cache.add_trades(trades);
    }

    /// Bulk-inserts bars from a response.
    fn handle_bars(&mut self, bars: Vec<Bar>)
        ensures
            final(self)@ == (EngineView {
                cache: CacheView {
                    bars: old(self)@.cache.bars + bars@.map(|i: int, x: Bar| x@),
                    ..old(self)@.cache
                },
                ..old(self)@
            }),
    {
        self.cache.add_bars(bars);
    }
}

/// The engine's handler on the bus's command endpoint: holds the
/// well-known endpoint id and forwards every message into `execute`.
#[derive(Debug)]
pub struct SubscriptionCommandHandler {
    pub id: String,
}

impl SubscriptionCommandHandler {
    /// A handler under the given endpoint id.
    pub fn new(id: String) -> (r: Self)
        ensures
            r.id@ == id@,
    {
        SubscriptionCommandHandler { id }
    }

    /// The endpoint id this handler is registered under.
    pub fn id(&self) -> (r: &String)
        ensures
            r@ == self.id@,
    {
        &self.id
    }

    /// Forwards a message from the endpoint into the engine.
    pub fn handle(&self, engine: &mut DataEngine, message: &EngineMessage)
        ensures
            message matches EngineMessage::Command(cmd) ==> (match spec_find_client(
                old(engine)@.clients,
                cmd@.client_id,
            ) {
                Some(i) => exists|key: SubscriptionKeyView|
                    #[trigger] spec_classified(cmd@.data_type, key) && final(engine)@
                        == (EngineView {
                        clients: old(engine)@.clients.update(
                            i,
                            spec_adapter_apply(old(engine)@.clients[i], key, cmd@),
                        ),
                        ..old(engine)@
                    }),
                None => final(engine)@ == old(engine)@,
            }),
            !(message matches EngineMessage::Command(_)) ==> final(engine)@ == old(engine)@,
    {
        engine.execute(message);
    }
}

} // verus!
