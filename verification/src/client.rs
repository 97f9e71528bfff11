//! The client adapter: the engine-facing facade over one venue's data
//! client. It tracks the adapter's lifecycle state, holds the nine
//! subscription sets, and records what is forwarded to the backend.

use vstd::prelude::*;

use crate::barform::{bar_type_from_str, bar_type_repr, wf_bar_type};
use crate::identifiers::{BarType, BarTypeView, ClientId, InstrumentId, Venue};
use crate::messages::{
    Action, DataRequest, DataRequestView, DataType, DataTypeView, SubscriptionCommand,
    SubscriptionCommandView, spec_metadata_get,
};

verus! {

/// Lifecycle state of one adapter.
#[derive(Clone, Copy, PartialEq, Eq, Structural, Debug)]
pub enum AdapterState {
    Registered,
    Connected,
    Disconnected,
    Disposed,
}

/// A set with the given element inserted, unless already present.
pub open spec fn spec_set_insert<T>(s: Seq<T>, key: T) -> Seq<T> {
    if s.contains(key) {
        s
    } else {
        s.push(key)
    }
}

/// A sequence with the first occurrence of the given element removed.
pub open spec fn spec_remove_first<T>(s: Seq<T>, key: T) -> Seq<T>
    decreases s.len(),
{
    if s.len() == 0 {
        s
    } else if s[0] == key {
        s.skip(1)
    } else {
        seq![s[0]] + spec_remove_first(s.skip(1), key)
    }
}

/// A subscription set after one command: grown on subscribe, shrunk on
/// unsubscribe.
pub open spec fn spec_set_apply<T>(s: Seq<T>, key: T, action: Action) -> Seq<T> {
    match action {
        Action::Subscribe => spec_set_insert(s, key),
        Action::Unsubscribe => spec_remove_first(s, key),
    }
}

/// Helper: removing the first occurrence removes exactly the element at
/// the first matching index.
proof fn lemma_remove_first_found<T>(s: Seq<T>, i: int, key: T)
    requires
        0 <= i < s.len(),
        s[i] == key,
        forall|k: int| 0 <= k < i ==> s[k] != key,
    ensures
        spec_remove_first(s, key) == s.remove(i),
    decreases i,
{
    if i == 0 {
        assert(s.remove(0) =~= s.skip(1));
    } else {
        assert(s.skip(1)[i - 1] == s[i]);
        lemma_remove_first_found(s.skip(1), i - 1, key);
        assert(seq![s[0]] + s.skip(1).remove(i - 1) =~= s.remove(i));
    }
}

/// Helper: removing an absent element changes nothing.
proof fn lemma_remove_first_absent<T>(s: Seq<T>, key: T)
    requires
        forall|k: int| 0 <= k < s.len() ==> s[k] != key,
    ensures
        spec_remove_first(s, key) == s,
    decreases s.len(),
{
    if s.len() > 0 {
        assert(forall|k: int| 0 <= k < s.skip(1).len() ==> s.skip(1)[k] == s[k + 1]);
        lemma_remove_first_absent(s.skip(1), key);
        assert(seq![s[0]] + s.skip(1) =~= s);
    }
}

/// The instrument-id views of a subscription set.
pub open spec fn instrument_set_view(s: Seq<InstrumentId>) -> Seq<Seq<char>> {
    s.map(|i: int, x: InstrumentId| x@)
}

/// The bar-type views of a subscription set.
pub open spec fn bar_set_view(s: Seq<BarType>) -> Seq<BarTypeView> {
    s.map(|i: int, x: BarType| x@)
}

/// The descriptor views of a subscription set.
pub open spec fn data_type_set_view(s: Seq<DataType>) -> Seq<DataTypeView> {
    s.map(|i: int, x: DataType| x@)
}

/// Applies one subscription action to a set of instrument ids.
fn apply_instrument_set(set: &mut Vec<InstrumentId>, key: InstrumentId, action: Action)
    ensures
        instrument_set_view(final(set)@) == spec_set_apply(
            instrument_set_view(old(set)@),
            key@,
            action,
        ),
{
    let ghost pre = instrument_set_view(set@);
    let ghost kv = key@;
    let mut i: usize = 0;
    let n = set.len();
    while i < n
        invariant
            i <= n,
            n == set@.len(),
            pre == instrument_set_view(set@),
            pre == instrument_set_view(old(set)@),
            pre.len() == n,
            kv == key@,
            forall|k: int| 0 <= k < i ==> pre[k] != kv,
            forall|k: int| 0 <= k < set@.len() ==> pre[k] == set@[k]@,
        decreases n - i,
    {
        if set[i] == key {
            proof {
                assert(pre[i as int] == kv);
                assert(pre.contains(kv));
            }
            match action {
                Action::Subscribe => {
                    // Already present: the set is unchanged.
                },
                Action::Unsubscribe => {
                    let _removed = set.remove(i);
                    proof {
                        lemma_remove_first_found(pre, i as int, kv);
                        assert(instrument_set_view(set@) =~= pre.remove(i as int));
                    }
                },
            }
            return ;
        }
        i = i + 1;
    }
    proof {
        assert(forall|k: int| 0 <= k < pre.len() ==> pre[k] != kv);
        assert(!pre.contains(kv));
    }
    match action {
        Action::Subscribe => {
            set.push(key);
            proof {
                assert(instrument_set_view(set@) =~= pre.push(kv));
            }
        },
        Action::Unsubscribe => {
            proof {
                lemma_remove_first_absent(pre, kv);
            }
        },
    }
}

/// Applies one subscription action to a set of bar types.
fn apply_bar_set(set: &mut Vec<BarType>, key: BarType, action: Action)
    ensures
        bar_set_view(final(set)@) == spec_set_apply(bar_set_view(old(set)@), key@, action),
{
    let ghost pre = bar_set_view(set@);
    let ghost kv = key@;
    let mut i: usize = 0;
    let n = set.len();
    while i < n
        invariant
            i <= n,
            n == set@.len(),
            pre == bar_set_view(set@),
            pre == bar_set_view(old(set)@),
            pre.len() == n,
            kv == key@,
            forall|k: int| 0 <= k < i ==> pre[k] != kv,
            forall|k: int| 0 <= k < set@.len() ==> pre[k] == set@[k]@,
        decreases n - i,
    {
        if set[i] == key {
            proof {
                assert(pre[i as int] == kv);
                assert(pre.contains(kv));
            }
            match action {
                Action::Subscribe => {
                },
                Action::Unsubscribe => {
                    let _removed = set.remove(i);
                    proof {
                        lemma_remove_first_found(pre, i as int, kv);
                        assert(bar_set_view(set@) =~= pre.remove(i as int));
                    }
                },
            }
            return ;
        }
        i = i + 1;
    }
    proof {
        assert(!pre.contains(kv));
    }
    match action {
        Action::Subscribe => {
            set.push(key);
            proof {
                assert(bar_set_view(set@) =~= pre.push(kv));
            }
        },
        Action::Unsubscribe => {
            proof {
                lemma_remove_first_absent(pre, kv);
            }
        },
    }
}

/// Applies one subscription action to a set of data-type descriptors.
fn apply_data_type_set(set: &mut Vec<DataType>, key: DataType, action: Action)
    ensures
        data_type_set_view(final(set)@) == spec_set_apply(
            data_type_set_view(old(set)@),
            key@,
            action,
        ),
{
    let ghost pre = data_type_set_view(set@);
    let ghost kv = key@;
    let mut i: usize = 0;
    let n = set.len();
    while i < n
        invariant
            i <= n,
            n == set@.len(),
            pre == data_type_set_view(set@),
            pre == data_type_set_view(old(set)@),
            pre.len() == n,
            kv == key@,
            forall|k: int| 0 <= k < i ==> pre[k] != kv,
            forall|k: int| 0 <= k < set@.len() ==> pre[k] == set@[k]@,
        decreases n - i,
    {
        if crate::messages::data_type_eq(&set[i], &key) {
            proof {
                assert(pre[i as int] == kv);
                assert(pre.contains(kv));
            }
            match action {
                Action::Subscribe => {
                },
                Action::Unsubscribe => {
                    let _removed = set.remove(i);
                    proof {
                        lemma_remove_first_found(pre, i as int, kv);
                        assert(data_type_set_view(set@) =~= pre.remove(i as int));
                    }
                },
            }
            return ;
        }
        i = i + 1;
    }
    proof {
        assert(!pre.contains(kv));
    }
    match action {
        Action::Subscribe => {
            set.push(key);
            proof {
                assert(data_type_set_view(set@) =~= pre.push(kv));
            }
        },
        Action::Unsubscribe => {
            proof {
                lemma_remove_first_absent(pre, kv);
            }
        },
    }
}

/// Mathematical value of the key a command addresses.
pub enum SubscriptionKeyView {
    Custom(DataTypeView),
    Instrument(Seq<char>),
    Deltas(Seq<char>),
    Snapshots(Seq<char>),
    Quote(Seq<char>),
    Trade(Seq<char>),
    Bar(BarTypeView),
    Status(Seq<char>),
    Close(Seq<char>),
    Malformed,
}

/// The key a subscription command addresses, classified from its data
/// type: which category's set it belongs to, and the entity within it.
#[derive(Debug)]
pub enum SubscriptionKey {
    Custom(DataType),
    Instrument(InstrumentId),
    Deltas(InstrumentId),
    Snapshots(InstrumentId),
    Quote(InstrumentId),
    Trade(InstrumentId),
    Bar(BarType),
    Status(InstrumentId),
    Close(InstrumentId),
    Malformed,
}

impl View for SubscriptionKey {
    type V = SubscriptionKeyView;

    open spec fn view(&self) -> SubscriptionKeyView {
        match self {
            SubscriptionKey::Custom(x) => SubscriptionKeyView::Custom(x@),
            SubscriptionKey::Instrument(x) => SubscriptionKeyView::Instrument(x@),
            SubscriptionKey::Deltas(x) => SubscriptionKeyView::Deltas(x@),
            SubscriptionKey::Snapshots(x) => SubscriptionKeyView::Snapshots(x@),
            SubscriptionKey::Quote(x) => SubscriptionKeyView::Quote(x@),
            SubscriptionKey::Trade(x) => SubscriptionKeyView::Trade(x@),
            SubscriptionKey::Bar(x) => SubscriptionKeyView::Bar(x@),
            SubscriptionKey::Status(x) => SubscriptionKeyView::Status(x@),
            SubscriptionKey::Close(x) => SubscriptionKeyView::Close(x@),
            SubscriptionKey::Malformed => SubscriptionKeyView::Malformed,
        }
    }
}

/// The instrument id named by a descriptor's metadata, if any.
pub open spec fn spec_meta(dt: DataTypeView, key: Seq<char>) -> Option<Seq<char>> {
    match dt.metadata {
        Some(entries) => spec_metadata_get(entries, key),
        None => None,
    }
}

/// Relates a descriptor to the key it classifies as. Instrument-keyed
/// categories read `instrument_id` from the metadata; the bar category
/// reads `bar_type` in its canonical textual form, so a `Bar` key always
/// re-serializes to the metadata string, and a bar command is malformed
/// only when no well-formed bar type has that string as its canonical
/// form. A known name with missing metadata is malformed; a malformed
/// command is dropped.
pub open spec fn spec_classified(dt: DataTypeView, key: SubscriptionKeyView) -> bool {
    if dt.name == "OrderBookDelta"@ {
        match spec_meta(dt, "instrument_id"@) {
            Some(s) => key == SubscriptionKeyView::Deltas(s),
            None => key == SubscriptionKeyView::Malformed,
        }
    } else if dt.name == "OrderBookDeltas"@ {
        match spec_meta(dt, "instrument_id"@) {
            Some(s) => key == SubscriptionKeyView::Snapshots(s),
            None => key == SubscriptionKeyView::Malformed,
        }
    } else if dt.name == "InstrumentAny"@ {
        match spec_meta(dt, "instrument_id"@) {
            Some(s) => key == SubscriptionKeyView::Instrument(s),
            None => key == SubscriptionKeyView::Malformed,
        }
    } else if dt.name == "QuoteTick"@ {
        match spec_meta(dt, "instrument_id"@) {
            Some(s) => key == SubscriptionKeyView::Quote(s),
            None => key == SubscriptionKeyView::Malformed,
        }
    } else if dt.name == "TradeTick"@ {
        match spec_meta(dt, "instrument_id"@) {
            Some(s) => key == SubscriptionKeyView::Trade(s),
            None => key == SubscriptionKeyView::Malformed,
        }
    } else if dt.name == "InstrumentStatus"@ {
        match spec_meta(dt, "instrument_id"@) {
            Some(s) => key == SubscriptionKeyView::Status(s),
            None => key == SubscriptionKeyView::Malformed,
        }
    } else if dt.name == "InstrumentClose"@ {
        match spec_meta(dt, "instrument_id"@) {
            Some(s) => key == SubscriptionKeyView::Close(s),
            None => key == SubscriptionKeyView::Malformed,
        }
    } else if dt.name == "Bar"@ {
        match spec_meta(dt, "bar_type"@) {
            Some(s) => (key matches SubscriptionKeyView::Bar(bt) && bar_type_repr(bt) == s) || (
            key == SubscriptionKeyView::Malformed && !(exists|bt: BarTypeView|
                wf_bar_type(bt) && bar_type_repr(bt) == s)),
            None => key == SubscriptionKeyView::Malformed,
        }
    } else {
        key == SubscriptionKeyView::Custom(dt)
    }
}

/// Classifies a descriptor into the subscription key it addresses.
pub fn classify(data_type: &DataType) -> (r: SubscriptionKey)
    ensures
        spec_classified(data_type@, r@),
{
    let name = &data_type.name;
    if *name == String::from_str("OrderBookDelta") {
        match data_type.metadata_get("instrument_id") {
            Some(v) => SubscriptionKey::Deltas(InstrumentId::new(v.clone())),
            None => SubscriptionKey::Malformed,
        }
    } else if *name == String::from_str("OrderBookDeltas") {
        match data_type.metadata_get("instrument_id") {
            Some(v) => SubscriptionKey::Snapshots(InstrumentId::new(v.clone())),
            None => SubscriptionKey::Malformed,
        }
    } else if *name == String::from_str("InstrumentAny") {
        match data_type.metadata_get("instrument_id") {
            Some(v) => SubscriptionKey::Instrument(InstrumentId::new(v.clone())),
            None => SubscriptionKey::Malformed,
        }
    } else if *name == String::from_str("QuoteTick") {
        match data_type.metadata_get("instrument_id") {
            Some(v) => SubscriptionKey::Quote(InstrumentId::new(v.clone())),
            None => SubscriptionKey::Malformed,
        }
    } else if *name == String::from_str("TradeTick") {
        match data_type.metadata_get("instrument_id") {
            Some(v) => SubscriptionKey::Trade(InstrumentId::new(v.clone())),
            None => SubscriptionKey::Malformed,
        }
    } else if *name == String::from_str("InstrumentStatus") {
        match data_type.metadata_get("instrument_id") {
            Some(v) => SubscriptionKey::Status(InstrumentId::new(v.clone())),
            None => SubscriptionKey::Malformed,
        }
    } else if *name == String::from_str("InstrumentClose") {
        match data_type.metadata_get("instrument_id") {
            Some(v) => SubscriptionKey::Close(InstrumentId::new(v.clone())),
            None => SubscriptionKey::Malformed,
        }
    } else if *name == String::from_str("Bar") {
        match data_type.metadata_get("bar_type") {
            Some(v) => {
                match bar_type_from_str(v.as_str()) {
                    Some(bt) => SubscriptionKey::Bar(bt),
                    None => SubscriptionKey::Malformed,
                }
            },
            None => SubscriptionKey::Malformed,
        }
    } else {
        SubscriptionKey::Custom(data_type.clone())
    }
}

/// Mathematical value of one adapter.
pub struct AdapterView {
    pub client_id: Seq<char>,
    pub venue: Seq<char>,
    pub state: AdapterState,
    pub subscriptions_generic: Seq<DataTypeView>,
    pub subscriptions_instrument: Seq<Seq<char>>,
    pub subscriptions_order_book_delta: Seq<Seq<char>>,
    pub subscriptions_order_book_snapshot: Seq<Seq<char>>,
    pub subscriptions_quote_tick: Seq<Seq<char>>,
    pub subscriptions_trade_tick: Seq<Seq<char>>,
    pub subscriptions_bar: Seq<BarTypeView>,
    pub subscriptions_instrument_status: Seq<Seq<char>>,
    pub subscriptions_instrument_close: Seq<Seq<char>>,
    pub backend_commands: Seq<SubscriptionCommandView>,
    pub backend_requests: Seq<DataRequestView>,
}

/// The engine-facing facade over one venue-specific data client.
#[derive(Debug)]
pub struct DataClientAdapter {
    pub client_id: ClientId,
    pub venue: Venue,
    pub state: AdapterState,
    pub subscriptions_generic: Vec<DataType>,
    pub subscriptions_instrument: Vec<InstrumentId>,
    pub subscriptions_order_book_delta: Vec<InstrumentId>,
    pub subscriptions_order_book_snapshot: Vec<InstrumentId>,
    pub subscriptions_quote_tick: Vec<InstrumentId>,
    pub subscriptions_trade_tick: Vec<InstrumentId>,
    pub subscriptions_bar: Vec<BarType>,
    pub subscriptions_instrument_status: Vec<InstrumentId>,
    pub subscriptions_instrument_close: Vec<InstrumentId>,
    pub backend_commands: Vec<SubscriptionCommand>,
    pub backend_requests: Vec<DataRequest>,
}

impl View for DataClientAdapter {
    type V = AdapterView;

    open spec fn view(&self) -> AdapterView {
        AdapterView {
            client_id: self.client_id@,
            venue: self.venue@,
            state: self.state,
            subscriptions_generic: data_type_set_view(self.subscriptions_generic@),
            subscriptions_instrument: instrument_set_view(self.subscriptions_instrument@),
            subscriptions_order_book_delta: instrument_set_view(
                self.subscriptions_order_book_delta@,
            ),
            subscriptions_order_book_snapshot: instrument_set_view(
                self.subscriptions_order_book_snapshot@,
            ),
            subscriptions_quote_tick: instrument_set_view(self.subscriptions_quote_tick@),
            subscriptions_trade_tick: instrument_set_view(self.subscriptions_trade_tick@),
            subscriptions_bar: bar_set_view(self.subscriptions_bar@),
            subscriptions_instrument_status: instrument_set_view(
                self.subscriptions_instrument_status@,
            ),
            subscriptions_instrument_close: instrument_set_view(
                self.subscriptions_instrument_close@,
            ),
            backend_commands: self.backend_commands@.map(|i: int, c: SubscriptionCommand| c@),
            backend_requests: self.backend_requests@.map(|i: int, r: DataRequest| r@),
        }
    }
}

/// One adapter after a classified command: the addressed category's set is
/// updated and the command is forwarded to the backend; a malformed
/// command changes nothing.
pub open spec fn spec_adapter_apply(
    a: AdapterView,
    key: SubscriptionKeyView,
    cmd: SubscriptionCommandView,
) -> AdapterView {
    let fwd = AdapterView { backend_commands: a.backend_commands.push(cmd), ..a };
    match key {
        SubscriptionKeyView::Custom(dt) => AdapterView {
            subscriptions_generic: spec_set_apply(a.subscriptions_generic, dt, cmd.action),
            ..fwd
        },
        SubscriptionKeyView::Instrument(id) => AdapterView {
            subscriptions_instrument: spec_set_apply(a.subscriptions_instrument, id, cmd.action),
            ..fwd
        },
        SubscriptionKeyView::Deltas(id) => AdapterView {
            subscriptions_order_book_delta: spec_set_apply(
                a.subscriptions_order_book_delta,
                id,
                cmd.action,
            ),
            ..fwd
        },
        SubscriptionKeyView::Snapshots(id) => AdapterView {
            subscriptions_order_book_snapshot: spec_set_apply(
                a.subscriptions_order_book_snapshot,
                id,
                cmd.action,
            ),
            ..fwd
        },
        SubscriptionKeyView::Quote(id) => AdapterView {
            subscriptions_quote_tick: spec_set_apply(a.subscriptions_quote_tick, id, cmd.action),
            ..fwd
        },
        SubscriptionKeyView::Trade(id) => AdapterView {
            subscriptions_trade_tick: spec_set_apply(a.subscriptions_trade_tick, id, cmd.action),
            ..fwd
        },
        SubscriptionKeyView::Bar(bt) => AdapterView {
            subscriptions_bar: spec_set_apply(a.subscriptions_bar, bt, cmd.action),
            ..fwd
        },
        SubscriptionKeyView::Status(id) => AdapterView {
            subscriptions_instrument_status: spec_set_apply(
                a.subscriptions_instrument_status,
                id,
                cmd.action,
            ),
            ..fwd
        },
        SubscriptionKeyView::Close(id) => AdapterView {
            subscriptions_instrument_close: spec_set_apply(
                a.subscriptions_instrument_close,
                id,
                cmd.action,
            ),
            ..fwd
        },
        SubscriptionKeyView::Malformed => a,
    }
}

/// An adapter after `start`: registered or disconnected becomes
/// connected; any other transition is rejected and nothing changes.
pub open spec fn spec_adapter_start(a: AdapterView) -> AdapterView {
    if a.state == AdapterState::Registered || a.state == AdapterState::Disconnected {
        AdapterView { state: AdapterState::Connected, ..a }
    } else {
        a
    }
}

/// An adapter after `stop`: connected becomes disconnected; any other
/// transition is rejected and nothing changes.
pub open spec fn spec_adapter_stop(a: AdapterView) -> AdapterView {
    if a.state == AdapterState::Connected {
        AdapterView { state: AdapterState::Disconnected, ..a }
    } else {
        a
    }
}

/// An adapter after `reset`: every subscription set and backend log is
/// cleared; identity and lifecycle state stay.
pub open spec fn spec_adapter_reset(a: AdapterView) -> AdapterView {
    AdapterView {
        subscriptions_generic: Seq::empty(),
        subscriptions_instrument: Seq::empty(),
        subscriptions_order_book_delta: Seq::empty(),
        subscriptions_order_book_snapshot: Seq::empty(),
        subscriptions_quote_tick: Seq::empty(),
        subscriptions_trade_tick: Seq::empty(),
        subscriptions_bar: Seq::empty(),
        subscriptions_instrument_status: Seq::empty(),
        subscriptions_instrument_close: Seq::empty(),
        backend_commands: Seq::empty(),
        backend_requests: Seq::empty(),
        ..a
    }
}

/// An adapter after `dispose`: disconnected or still-registered becomes
/// disposed; a connected one must be stopped first, so nothing changes.
pub open spec fn spec_adapter_dispose(a: AdapterView) -> AdapterView {
    if a.state == AdapterState::Disconnected || a.state == AdapterState::Registered {
        AdapterView { state: AdapterState::Disposed, ..a }
    } else {
        a
    }
}

impl DataClientAdapter {
    /// A fresh adapter for one client and venue, with empty subscription
    /// sets, in the registered state.
    pub fn new(client_id: ClientId, venue: Venue) -> (r: Self)
        ensures
            r@.client_id == client_id@,
            r@.venue == venue@,
            r@.state == AdapterState::Registered,
            r@.subscriptions_generic == Seq::<DataTypeView>::empty(),
            r@.subscriptions_instrument == Seq::<Seq<char>>::empty(),
            r@.subscriptions_order_book_delta == Seq::<Seq<char>>::empty(),
            r@.subscriptions_order_book_snapshot == Seq::<Seq<char>>::empty(),
            r@.subscriptions_quote_tick == Seq::<Seq<char>>::empty(),
            r@.subscriptions_trade_tick == Seq::<Seq<char>>::empty(),
            r@.subscriptions_bar == Seq::<BarTypeView>::empty(),
            r@.subscriptions_instrument_status == Seq::<Seq<char>>::empty(),
            r@.subscriptions_instrument_close == Seq::<Seq<char>>::empty(),
            r@.backend_commands == Seq::<SubscriptionCommandView>::empty(),
            r@.backend_requests == Seq::<DataRequestView>::empty(),
    {
        let r = DataClientAdapter {
            client_id,
            venue,
            state: AdapterState::Registered,
            subscriptions_generic: Vec::new(),
            subscriptions_instrument: Vec::new(),
            subscriptions_order_book_delta: Vec::new(),
            subscriptions_order_book_snapshot: Vec::new(),
            subscriptions_quote_tick: Vec::new(),
            subscriptions_trade_tick: Vec::new(),
            subscriptions_bar: Vec::new(),
            subscriptions_instrument_status: Vec::new(),
            subscriptions_instrument_close: Vec::new(),
            backend_commands: Vec::new(),
            backend_requests: Vec::new(),
        };
        proof {
            assert(r@.subscriptions_generic =~= Seq::<DataTypeView>::empty());
            assert(r@.subscriptions_instrument =~= Seq::<Seq<char>>::empty());
            assert(r@.subscriptions_order_book_delta =~= Seq::<Seq<char>>::empty());
            assert(r@.subscriptions_order_book_snapshot =~= Seq::<Seq<char>>::empty());
            assert(r@.subscriptions_quote_tick =~= Seq::<Seq<char>>::empty());
            assert(r@.subscriptions_trade_tick =~= Seq::<Seq<char>>::empty());
            assert(r@.subscriptions_bar =~= Seq::<BarTypeView>::empty());
            assert(r@.subscriptions_instrument_status =~= Seq::<Seq<char>>::empty());
            assert(r@.subscriptions_instrument_close =~= Seq::<Seq<char>>::empty());
            assert(r@.backend_commands =~= Seq::<SubscriptionCommandView>::empty());
            assert(r@.backend_requests =~= Seq::<DataRequestView>::empty());
        }
        r
    }

    /// The id of the client behind this adapter.
    pub fn client_id(&self) -> (r: &ClientId)
        ensures
            r@ == self@.client_id,
    {
        &self.client_id
    }

    /// The venue this adapter serves.
    pub fn venue(&self) -> (r: &Venue)
        ensures
            r@ == self@.venue,
    {
        &self.venue
    }

    /// Whether the backend reports itself connected.
    pub fn is_connected(&self) -> (r: bool)
        ensures
            r == (self@.state == AdapterState::Connected),
    {
        matches!(self.state, AdapterState::Connected)
    }

    /// Starts the client: a registered or disconnected adapter becomes
    /// connected; any other transition is rejected and nothing changes.
    pub fn start(&mut self)
        ensures
            final(self)@ == spec_adapter_start(old(self)@),
    {
        match self.state {
            AdapterState::Registered => {
                self.state = AdapterState::Connected;
            },
            AdapterState::Disconnected => {
                self.state = AdapterState::Connected;
            },
            _ => {
            },
        }
    }

    /// Stops the client: a connected adapter becomes disconnected; any
    /// other transition is rejected and nothing changes.
    pub fn stop(&mut self)
        ensures
            final(self)@ == spec_adapter_stop(old(self)@),
    {
        if matches!(self.state, AdapterState::Connected) {
            self.state = AdapterState::Disconnected;
        }
    }

    /// Resets the adapter: every subscription set and backend log is
    /// cleared; identity and lifecycle state stay.
    pub fn reset(&mut self)
        ensures
            final(self)@ == spec_adapter_reset(old(self)@),
    {
        self.subscriptions_generic = Vec::new();
        self.subscriptions_instrument = Vec::new();
        self.subscriptions_order_book_delta = Vec::new();
        self.subscriptions_order_book_snapshot = Vec::new();
        self.subscriptions_quote_tick = Vec::new();
        self.subscriptions_trade_tick = Vec::new();
        self.subscriptions_bar = Vec::new();
        self.subscriptions_instrument_status = Vec::new();
        self.subscriptions_instrument_close = Vec::new();
        self.backend_commands = Vec::new();
        self.backend_requests = Vec::new();
        proof {
            assert(self@.subscriptions_generic =~= Seq::<DataTypeView>::empty());
            assert(self@.subscriptions_instrument =~= Seq::<Seq<char>>::empty());
            assert(self@.subscriptions_order_book_delta =~= Seq::<Seq<char>>::empty());
            assert(self@.subscriptions_order_book_snapshot =~= Seq::<Seq<char>>::empty());
            assert(self@.subscriptions_quote_tick =~= Seq::<Seq<char>>::empty());
            assert(self@.subscriptions_trade_tick =~= Seq::<Seq<char>>::empty());
            assert(self@.subscriptions_bar =~= Seq::<BarTypeView>::empty());
            assert(self@.subscriptions_instrument_status =~= Seq::<Seq<char>>::empty());
            assert(self@.subscriptions_instrument_close =~= Seq::<Seq<char>>::empty());
            assert(self@.backend_commands =~= Seq::<SubscriptionCommandView>::empty());
            assert(self@.backend_requests =~= Seq::<DataRequestView>::empty());
        }
    }

    /// Disposes the client: a disconnected or still-registered adapter
    /// becomes disposed; a connected one must be stopped first, so the
    /// transition is rejected and nothing changes.
    pub fn dispose(&mut self)
        ensures
            final(self)@ == spec_adapter_dispose(old(self)@),
    {
        match self.state {
            AdapterState::Disconnected => {
                self.state = AdapterState::Disposed;
            },
            AdapterState::Registered => {
                self.state = AdapterState::Disposed;
            },
            _ => {
            },
        }
    }

    /// Executes one subscription command: the addressed category's set is
    /// updated with the key extracted from the command's data type, and
    /// the command is forwarded to the backend. A malformed command is
    /// dropped.
    pub fn execute(&mut self, cmd: SubscriptionCommand)
        ensures
            exists|key: SubscriptionKeyView|
                #[trigger] spec_classified(cmd@.data_type, key) && final(self)@
                    == spec_adapter_apply(old(self)@, key, cmd@),
    {
        let ghost pre = self@;
        let key = classify(&cmd.data_type);
        let ghost keyv = key@;
        let ghost cmdv = cmd@;
        match key {
            SubscriptionKey::Malformed => {
                proof {
                    assert(spec_classified(cmdv.data_type, keyv) && self@ == spec_adapter_apply(
                        pre,
                        keyv,
                        cmdv,
                    ));
                }
            },
            SubscriptionKey::Custom(dt) => {
                let action = cmd.action;
                apply_data_type_set(&mut self.subscriptions_generic, dt, action);
                self.push_backend_command(cmd);
                proof {
                    assert(self@ == spec_adapter_apply(pre, keyv, cmdv));
                }
            },
            SubscriptionKey::Instrument(id) => {
                let action = cmd.action;
                apply_instrument_set(&mut self.subscriptions_instrument, id, action);
                self.push_backend_command(cmd);
                proof {
                    assert(self@ == spec_adapter_apply(pre, keyv, cmdv));
                }
            },
            SubscriptionKey::Deltas(id) => {
                let action = cmd.action;
                apply_instrument_set(&mut self.subscriptions_order_book_delta, id, action);
                self.push_backend_command(cmd);
                proof {
                    assert(self@ == spec_adapter_apply(pre, keyv, cmdv));
                }
            },
            SubscriptionKey::Snapshots(id) => {
                let action = cmd.action;
                apply_instrument_set(&mut self.subscriptions_order_book_snapshot, id, action);
                self.push_backend_command(cmd);
                proof {
                    assert(self@ == spec_adapter_apply(pre, keyv, cmdv));
                }
            },
            SubscriptionKey::Quote(id) => {
                let action = cmd.action;
                apply_instrument_set(&mut self.subscriptions_quote_tick, id, action);
                self.push_backend_command(cmd);
                proof {
                    assert(self@ == spec_adapter_apply(pre, keyv, cmdv));
                }
            },
            SubscriptionKey::Trade(id) => {
                let action = cmd.action;
                apply_instrument_set(&mut self.subscriptions_trade_tick, id, action);
                self.push_backend_command(cmd);
                proof {
                    assert(self@ == spec_adapter_apply(pre, keyv, cmdv));
                }
            },
            SubscriptionKey::Bar(bt) => {
                let action = cmd.action;
                apply_bar_set(&mut self.subscriptions_bar, bt, action);
                self.push_backend_command(cmd);
                proof {
                    assert(self@ == spec_adapter_apply(pre, keyv, cmdv));
                }
            },
            SubscriptionKey::Status(id) => {
                let action = cmd.action;
                apply_instrument_set(&mut self.subscriptions_instrument_status, id, action);
                self.push_backend_command(cmd);
                proof {
                    assert(self@ == spec_adapter_apply(pre, keyv, cmdv));
                }
            },
            SubscriptionKey::Close(id) => {
                let action = cmd.action;
                apply_instrument_set(&mut self.subscriptions_instrument_close, id, action);
                self.push_backend_command(cmd);
                proof {
                    assert(self@ == spec_adapter_apply(pre, keyv, cmdv));
                }
            },
        }
    }

    /// Forwards a command to the backend without touching the sets.
    fn push_backend_command(&mut self, cmd: SubscriptionCommand)
        ensures
            final(self)@ == (AdapterView {
                backend_commands: old(self)@.backend_commands.push(cmd@),
                ..old(self)@
            }),
    {
        let ghost pre = self@.backend_commands;
        let ghost v = cmd@;
        self.backend_commands.push(cmd);
        proof {
            assert(self@.backend_commands =~= pre.push(v));
        }
    }

    /// Hands a command straight to the backend, bypassing the sets.
    pub fn through_execute(&mut self, cmd: SubscriptionCommand)
        ensures
            final(self)@ == (AdapterView {
                backend_commands: old(self)@.backend_commands.push(cmd@),
                ..old(self)@
            }),
    {
        self.push_backend_command(cmd);
    }

    /// Issues a data request to the backend; the response arrives later
    /// through the engine's response entry point.
    pub fn request(&mut self, req: DataRequest)
        ensures
            final(self)@ == (AdapterView {
                backend_requests: old(self)@.backend_requests.push(req@),
                ..old(self)@
            }),
    {
        let ghost pre = self@.backend_requests;
        let ghost v = req@;
        self.backend_requests.push(req);
        proof {
            assert(self@.backend_requests =~= pre.push(v));
        }
    }
}

/// After a subscribe command whose key is well-formed, the addressed
/// category's set contains the key; every other category is untouched.
/// After any command with an unknown or malformed key, no set changes.
pub proof fn lemma_subscribe_inserts(
    a: AdapterView,
    key: SubscriptionKeyView,
    cmd: SubscriptionCommandView,
)
    requires
        cmd.action == Action::Subscribe,
    ensures
        ({
            let after = spec_adapter_apply(a, key, cmd);
            match key {
                SubscriptionKeyView::Custom(dt) => after.subscriptions_generic.contains(dt),
                SubscriptionKeyView::Instrument(id) => after.subscriptions_instrument.contains(id),
                SubscriptionKeyView::Deltas(id) => after.subscriptions_order_book_delta.contains(
                    id,
                ),
                SubscriptionKeyView::Snapshots(id) => after.subscriptions_order_book_snapshot
                    .contains(id),
                SubscriptionKeyView::Quote(id) => after.subscriptions_quote_tick.contains(id),
                SubscriptionKeyView::Trade(id) => after.subscriptions_trade_tick.contains(id),
                SubscriptionKeyView::Bar(bt) => after.subscriptions_bar.contains(bt),
                SubscriptionKeyView::Status(id) => after.subscriptions_instrument_status.contains(
                    id,
                ),
                SubscriptionKeyView::Close(id) => after.subscriptions_instrument_close.contains(
                    id,
                ),
                SubscriptionKeyView::Malformed => spec_adapter_apply(a, key, cmd) == a,
            }
        }),
{
    match key {
        SubscriptionKeyView::Custom(dt) => {
            if !a.subscriptions_generic.contains(dt) {
                assert(a.subscriptions_generic.push(dt).last() == dt);
            }
        },
        SubscriptionKeyView::Instrument(id) => {
            if !a.subscriptions_instrument.contains(id) {
                assert(a.subscriptions_instrument.push(id).last() == id);
            }
        },
        SubscriptionKeyView::Deltas(id) => {
            if !a.subscriptions_order_book_delta.contains(id) {
                assert(a.subscriptions_order_book_delta.push(id).last() == id);
            }
        },
        SubscriptionKeyView::Snapshots(id) => {
            if !a.subscriptions_order_book_snapshot.contains(id) {
                assert(a.subscriptions_order_book_snapshot.push(id).last() == id);
            }
        },
        SubscriptionKeyView::Quote(id) => {
            if !a.subscriptions_quote_tick.contains(id) {
                assert(a.subscriptions_quote_tick.push(id).last() == id);
            }
        },
        SubscriptionKeyView::Trade(id) => {
            if !a.subscriptions_trade_tick.contains(id) {
                assert(a.subscriptions_trade_tick.push(id).last() == id);
            }
        },
        SubscriptionKeyView::Bar(bt) => {
            if !a.subscriptions_bar.contains(bt) {
                assert(a.subscriptions_bar.push(bt).last() == bt);
            }
        },
        SubscriptionKeyView::Status(id) => {
            if !a.subscriptions_instrument_status.contains(id) {
                assert(a.subscriptions_instrument_status.push(id).last() == id);
            }
        },
        SubscriptionKeyView::Close(id) => {
            if !a.subscriptions_instrument_close.contains(id) {
                assert(a.subscriptions_instrument_close.push(id).last() == id);
            }
        },
        SubscriptionKeyView::Malformed => {
        },
    }
}

} // verus!
