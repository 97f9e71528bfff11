//! Engine-level laws: statements that relate several operations, proved
//! from the transition functions the operations' own contracts use.

use vstd::prelude::*;

use crate::barform::{bar_type_repr, wf_bar_type};
use crate::client::{spec_classified, spec_meta, AdapterView, SubscriptionKeyView};
use crate::data::{spec_is_last, OrderBookDeltaView, OrderBookDeltasView};
use crate::engine::{
    lemma_find_buffer_char, lemma_find_client_char, spec_bar_accepted, spec_buffer_get,
    spec_buffer_remove, spec_buffer_update, spec_clients_insert, spec_clients_remove,
    spec_find_buffer, spec_find_client, spec_handle_bar, spec_handle_delta,
    spec_routing_without, EngineView,
};
use crate::msgbus::{PayloadView, PublicationView, TopicView};

verus! {

/// The engine after a sequence of inbound deltas, processed in order.
pub open spec fn spec_process_deltas(e: EngineView, ds: Seq<OrderBookDeltaView>) -> EngineView
    decreases ds.len(),
{
    if ds.len() == 0 {
        e
    } else {
        spec_process_deltas(spec_handle_delta(e, ds[0]), ds.skip(1))
    }
}

/// Unique buffer keys: no two entries accumulate for the same instrument.
pub open spec fn buffer_keys_unique(bufs: Seq<(Seq<char>, Seq<OrderBookDeltaView>)>) -> bool {
    forall|i: int, j: int| 0 <= i < j < bufs.len() ==> bufs[i].0 != bufs[j].0
}

/// Helper: after an update, the instrument's buffer reads back as written.
proof fn lemma_buffer_update_get(
    bufs: Seq<(Seq<char>, Seq<OrderBookDeltaView>)>,
    id: Seq<char>,
    s: Seq<OrderBookDeltaView>,
)
    ensures
        spec_buffer_get(spec_buffer_update(bufs, id, s), id) == s,
        spec_find_buffer(spec_buffer_update(bufs, id, s), id) is Some,
        buffer_keys_unique(bufs) ==> buffer_keys_unique(spec_buffer_update(bufs, id, s)),
{
    lemma_find_buffer_char(bufs, id);
    let upd = spec_buffer_update(bufs, id, s);
    match spec_find_buffer(bufs, id) {
        Some(i) => {
            assert(upd[i].0 == id);
            assert(forall|k: int| 0 <= k < i ==> upd[k] == bufs[k]);
            lemma_find_buffer_char(upd, id);
            match spec_find_buffer(upd, id) {
                Some(fi) => {
                    assert(fi == i) by {
                        if fi < i {
                            assert(upd[fi] == bufs[fi]);
                            assert(bufs[fi].0 != id);
                        }
                        if fi > i {
                            assert(upd[i].0 != id);
                        }
                    };
                },
                None => {
                    assert(upd[i].0 != id);
                },
            }
        },
        None => {
            assert(upd[bufs.len() as int].0 == id);
            assert(forall|k: int| 0 <= k < bufs.len() ==> upd[k] == bufs[k]);
            lemma_find_buffer_char(upd, id);
            match spec_find_buffer(upd, id) {
                Some(fi) => {
                    assert(fi == bufs.len()) by {
                        if fi < bufs.len() {
                            assert(upd[fi] == bufs[fi]);
                            assert(bufs[fi].0 != id);
                        }
                    };
                },
                None => {
                    assert(upd[bufs.len() as int].0 != id);
                },
            }
        },
    }
}

/// Helper: removing the instrument's entry from a unique-keyed buffer
/// leaves no entry for it.
proof fn lemma_buffer_update_remove(
    bufs: Seq<(Seq<char>, Seq<OrderBookDeltaView>)>,
    id: Seq<char>,
    s: Seq<OrderBookDeltaView>,
)
    requires
        buffer_keys_unique(bufs),
    ensures
        spec_find_buffer(spec_buffer_remove(spec_buffer_update(bufs, id, s), id), id) is None,
{
    lemma_buffer_update_get(bufs, id, s);
    let upd = spec_buffer_update(bufs, id, s);
    lemma_find_buffer_char(upd, id);
    let fi = spec_find_buffer(upd, id).unwrap();
    assert(upd[fi].0 == id);
    let rem = spec_buffer_remove(upd, id);
    assert(rem == upd.remove(fi));
    assert forall|k: int| 0 <= k < rem.len() implies rem[k].0 != id by {
        if k < fi {
            assert(rem[k] == upd[k]);
            assert(upd[k].0 != id);
        } else {
            assert(rem[k] == upd[k + 1]);
            if upd[k + 1].0 == id {
                assert(fi < k + 1 < upd.len());
                match spec_find_buffer(bufs, id) {
                    Some(i) => {
                        assert(upd[k + 1] == bufs[k + 1]);
                        assert(bufs[i].0 == id);
                        assert(bufs[i].0 != bufs[k + 1].0);
                    },
                    None => {
                        if k + 1 < bufs.len() {
                            assert(upd[k + 1] == bufs[k + 1]);
                            assert(bufs[k + 1].0 != id);
                        }
                    },
                }
            }
        }
    };
    lemma_find_buffer_char(rem, id);
    if spec_find_buffer(rem, id) is Some {
        let wi = spec_find_buffer(rem, id).unwrap();
        assert(rem[wi].0 != id);
    }
}

/// Buffered deltas flush as one batch.
///
/// For every delta sequence for one instrument whose last element alone
/// carries the end-of-batch flag, processed in order by an engine that
/// buffers deltas and holds nothing yet for that instrument: exactly one
/// publication is made, a `Deltas` batch on the instrument's deltas topic
/// holding all the deltas in their arrival order, and afterwards nothing
/// remains buffered for the instrument.
pub proof fn lemma_buffered_deltas_flush(
    e: EngineView,
    ds: Seq<OrderBookDeltaView>,
    id: Seq<char>,
)
    requires
        e.config.buffer_deltas,
        ds.len() >= 1,
        forall|i: int| 0 <= i < ds.len() ==> (#[trigger] ds[i]).instrument_id == id,
        forall|i: int| 0 <= i < ds.len() - 1 ==> !spec_is_last((#[trigger] ds[i]).flags),
        spec_is_last(ds.last().flags),
        buffer_keys_unique(e.buffered),
    ensures
        spec_process_deltas(e, ds).msgbus.publications == e.msgbus.publications.push(
            PublicationView {
                topic: TopicView::Deltas(id),
                payload: PayloadView::Deltas(
                    OrderBookDeltasView {
                        instrument_id: id,
                        deltas: spec_buffer_get(e.buffered, id) + ds,
                        ts_event: ds.last().ts_event,
                        ts_init: ds.last().ts_init,
                    },
                ),
            },
        ),
        spec_find_buffer(spec_process_deltas(e, ds).buffered, id) is None,
    decreases ds.len(),
{
    let d = ds[0];
    let buf = spec_buffer_get(e.buffered, id).push(d);
    if ds.len() == 1 {
        assert(ds.last() == d);
        lemma_buffer_update_get(e.buffered, id, buf);
        lemma_buffer_update_remove(e.buffered, id, buf);
        assert(spec_buffer_get(e.buffered, id) + ds =~= buf);
        assert(spec_process_deltas(spec_handle_delta(e, d), ds.skip(1)) == spec_handle_delta(
            e,
            d,
        ));
    } else {
        assert(!spec_is_last(d.flags));
        let e1 = spec_handle_delta(e, d);
        lemma_buffer_update_get(e.buffered, id, buf);
        assert(e1.buffered == spec_buffer_update(e.buffered, id, buf));
        assert(e1.msgbus == e.msgbus);
        assert(e1.config == e.config);
        let rest = ds.skip(1);
        assert(rest.len() == ds.len() - 1);
        assert(forall|i: int| 0 <= i < rest.len() ==> (#[trigger] rest[i]) == ds[i + 1]);
        assert(rest.last() == ds.last());
        assert forall|i: int| 0 <= i < rest.len() - 1 implies !spec_is_last(
            (#[trigger] rest[i]).flags,
        ) by {
            assert(rest[i] == ds[i + 1]);
        };
        lemma_buffered_deltas_flush(e1, rest, id);
        assert(spec_buffer_get(e1.buffered, id) + rest =~= spec_buffer_get(e.buffered, id) + ds);
        assert(spec_process_deltas(e, ds) == spec_process_deltas(e1, rest));
    }
}

/// Sequence validation drops a regressing bar whole.
///
/// With sequence validation on, after a bar is admitted, a second bar of
/// the same bar type whose event timestamp lies before the first one's
/// changes nothing: it is not cached and no bar-topic publication occurs.
pub proof fn lemma_bar_regression_dropped(e: EngineView, b1: crate::data::BarView, b2: crate::data::BarView)
    requires
        e.config.validate_data_sequence,
        b1.bar_type == b2.bar_type,
        b2.ts_event < b1.ts_event,
        spec_bar_accepted(e, b1),
    ensures
        spec_handle_bar(spec_handle_bar(e, b1), b2) == spec_handle_bar(e, b1),
{
    let e1 = spec_handle_bar(e, b1);
    assert(e1.cache.bars == e.cache.bars.push(b1));
    assert(e1.cache.bars.last() == b1);
    assert(!spec_bar_accepted(e1, b2));
}

/// Round trip: registering a new client and then deregistering it leaves
/// the registry exactly as it was, in the same order.
pub proof fn lemma_register_deregister_round_trip(cs: Seq<AdapterView>, a: AdapterView)
    requires
        forall|k: int| 0 <= k < cs.len() ==> (#[trigger] cs[k]).client_id != a.client_id,
    ensures
        spec_clients_remove(spec_clients_insert(cs, a), a.client_id) == cs,
{
    lemma_find_client_char(cs, a.client_id);
    if spec_find_client(cs, a.client_id) is Some {
        let fi = spec_find_client(cs, a.client_id).unwrap();
        assert(cs[fi].client_id != a.client_id);
    }
    let pushed = cs.push(a);
    assert(spec_clients_insert(cs, a) == pushed);
    lemma_find_client_char(pushed, a.client_id);
    match spec_find_client(pushed, a.client_id) {
        Some(fi) => {
            assert(fi == cs.len()) by {
                if fi < cs.len() {
                    assert(pushed[fi] == cs[fi]);
                }
            };
            assert(pushed.remove(cs.len() as int) =~= cs);
        },
        None => {
            assert(pushed[cs.len() as int].client_id == a.client_id);
        },
    }
}

/// Idempotence: deregistering a client id that no adapter carries changes
/// neither the registry nor the routing map, provided every route points
/// to a registered client, as the engine's well-formedness guarantees.
pub proof fn lemma_deregister_unknown_noop(e: EngineView, id: Seq<char>)
    requires
        crate::engine::engine_wf(e),
        forall|k: int| 0 <= k < e.clients.len() ==> (#[trigger] e.clients[k]).client_id != id,
    ensures
        spec_clients_remove(e.clients, id) == e.clients,
        spec_routing_without(e.routing, id) == e.routing,
{
    lemma_find_client_char(e.clients, id);
    if spec_find_client(e.clients, id) is Some {
        let fi = spec_find_client(e.clients, id).unwrap();
        assert(e.clients[fi].client_id != id);
    }
    assert forall|k: int| 0 <= k < e.routing.len() implies (#[trigger] e.routing[k]).1 != id by {
        let w = choose|w: int|
            0 <= w < e.clients.len() && e.clients[w].client_id == e.routing[k].1;
        assert(e.clients[w].client_id != id);
    };
    lemma_routing_without_id(e.routing, id);
}

/// Helper: filtering out an id that no entry points to changes nothing.
proof fn lemma_routing_without_id(entries: Seq<(Seq<char>, Seq<char>)>, id: Seq<char>)
    requires
        forall|k: int| 0 <= k < entries.len() ==> (#[trigger] entries[k]).1 != id,
    ensures
        spec_routing_without(entries, id) == entries,
    decreases entries.len(),
{
    if entries.len() > 0 {
        assert(forall|k: int|
            0 <= k < entries.skip(1).len() ==> (#[trigger] entries.skip(1)[k]) == entries[k + 1]);
        lemma_routing_without_id(entries.skip(1), id);
        assert(seq![entries[0]] + entries.skip(1) =~= entries);
    }
}


/// Dispatch places the key in the addressed adapter's set.
///
/// For a subscribe command addressed to the registered client at index
/// `i`, however its data type classifies: after dispatch the addressed
/// adapter's corresponding subscription set contains the extracted key,
/// every other adapter is untouched, and a malformed key leaves even the
/// addressed adapter unchanged. Commands for unknown client ids change no
/// adapter at all, by `execute`'s own contract.
pub proof fn lemma_dispatch_subscribes(
    e: EngineView,
    i: int,
    key: crate::client::SubscriptionKeyView,
    cmd: crate::messages::SubscriptionCommandView,
)
    requires
        0 <= i < e.clients.len(),
        cmd.action == crate::messages::Action::Subscribe,
    ensures
        ({
            let after = e.clients.update(
                i,
                crate::client::spec_adapter_apply(e.clients[i], key, cmd),
            );
            &&& forall|k: int| 0 <= k < after.len() && k != i ==> after[k] == e.clients[k]
            &&& match key {
                crate::client::SubscriptionKeyView::Custom(dt) =>
                    after[i].subscriptions_generic.contains(dt),
                crate::client::SubscriptionKeyView::Instrument(id) =>
                    after[i].subscriptions_instrument.contains(id),
                crate::client::SubscriptionKeyView::Deltas(id) =>
                    after[i].subscriptions_order_book_delta.contains(id),
                crate::client::SubscriptionKeyView::Snapshots(id) =>
                    after[i].subscriptions_order_book_snapshot.contains(id),
                crate::client::SubscriptionKeyView::Quote(id) =>
                    after[i].subscriptions_quote_tick.contains(id),
                crate::client::SubscriptionKeyView::Trade(id) =>
                    after[i].subscriptions_trade_tick.contains(id),
                crate::client::SubscriptionKeyView::Bar(bt) =>
                    after[i].subscriptions_bar.contains(bt),
                crate::client::SubscriptionKeyView::Status(id) =>
                    after[i].subscriptions_instrument_status.contains(id),
                crate::client::SubscriptionKeyView::Close(id) =>
                    after[i].subscriptions_instrument_close.contains(id),
                crate::client::SubscriptionKeyView::Malformed => after[i] == e.clients[i],
            }
        }),
{
    crate::client::lemma_subscribe_inserts(e.clients[i], key, cmd);
}


/// Dispatch and lifecycle transitions keep the engine well-formed: a
/// command updates one adapter without changing its identity, so no two
/// adapters come to share a client id and every route still points to a
/// registered client.
pub proof fn lemma_dispatch_preserves_wf(
    e: EngineView,
    i: int,
    key: crate::client::SubscriptionKeyView,
    cmd: crate::messages::SubscriptionCommandView,
)
    requires
        crate::engine::engine_wf(e),
        0 <= i < e.clients.len(),
    ensures
        crate::engine::engine_wf(
            EngineView {
                clients: e.clients.update(
                    i,
                    crate::client::spec_adapter_apply(e.clients[i], key, cmd),
                ),
                ..e
            },
        ),
{
    let after = e.clients.update(i, crate::client::spec_adapter_apply(e.clients[i], key, cmd));
    assert(after[i].client_id == e.clients[i].client_id);
    assert forall|p: int, q: int| 0 <= p < q < after.len() implies after[p].client_id
        != after[q].client_id by {
        assert(e.clients[p].client_id != e.clients[q].client_id);
    };
    assert forall|k: int|
        0 <= k < e.routing.len() implies exists|w: int|
        0 <= w < after.len() && after[w].client_id == #[trigger] e.routing[k].1 by {
        let w = choose|w: int|
            0 <= w < e.clients.len() && e.clients[w].client_id == e.routing[k].1;
        assert(after[w].client_id == e.routing[k].1);
    };
}


/// A bar subscribe command is never dropped for a real bar type: when the
/// descriptor is named for bars and its metadata carries the canonical
/// form of some well-formed bar type, the classified key is a bar key
/// that re-serializes to that form — never malformed.
pub proof fn lemma_bar_command_classifies(
    dt: crate::messages::DataTypeView,
    key: SubscriptionKeyView,
    s: Seq<char>,
)
    requires
        spec_classified(dt, key),
        dt.name == "Bar"@,
        spec_meta(dt, "bar_type"@) == Some(s),
        exists|bt: crate::identifiers::BarTypeView| wf_bar_type(bt) && bar_type_repr(bt) == s,
    ensures
        key matches SubscriptionKeyView::Bar(bt) && bar_type_repr(bt) == s,
{
    reveal_strlit("Bar");
    reveal_strlit("OrderBookDelta");
    reveal_strlit("OrderBookDeltas");
    reveal_strlit("InstrumentAny");
    reveal_strlit("QuoteTick");
    reveal_strlit("TradeTick");
    reveal_strlit("InstrumentStatus");
    reveal_strlit("InstrumentClose");
    assert("Bar"@.len() == 3);
    assert(dt.name != "OrderBookDelta"@);
    assert(dt.name != "OrderBookDeltas"@);
    assert(dt.name != "InstrumentAny"@);
    assert(dt.name != "QuoteTick"@);
    assert(dt.name != "TradeTick"@);
    assert(dt.name != "InstrumentStatus"@);
    assert(dt.name != "InstrumentClose"@);
}

} // verus!
