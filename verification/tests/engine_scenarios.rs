//! End-to-end scenarios over the engine: subscription commands through
//! the command endpoint, data processing, routing and lifecycle.

use data_engine::barform::bar_type_from_str;
use data_engine::client::{AdapterState, DataClientAdapter};
use data_engine::data::{Bar, Data, OrderBookDelta, QuoteTick, TradeTick, F_LAST};
use data_engine::engine::{
    Clock, DataEngine, DataEngineConfig, EngineMessage, SubscriptionCommandHandler,
};
use data_engine::identifiers::{BookAction, BookType, ClientId, InstrumentId, OrderSide, Venue};
use data_engine::messages::{data_type_eq, Action, DataType, SubscriptionCommand};
use data_engine::msgbus::{MessageBus, Payload, Topic};

fn client_id(name: &str) -> ClientId {
    ClientId::new(name.to_string())
}

fn venue(name: &str) -> Venue {
    Venue::new(name.to_string())
}

fn instrument_id(name: &str) -> InstrumentId {
    InstrumentId::new(name.to_string())
}

fn fresh_engine(config: Option<DataEngineConfig>) -> DataEngine {
    DataEngine::new(
        Clock::new(),
        data_engine::cache::Cache::new(),
        MessageBus::new(),
        config,
    )
}

fn subscribe_command(cid: &str, ven: &str, data_type: DataType) -> SubscriptionCommand {
    SubscriptionCommand::new(
        client_id(cid),
        venue(ven),
        data_type,
        Action::Subscribe,
        1,
        0,
    )
}

fn default_quote(inst: &str) -> QuoteTick {
    QuoteTick {
        instrument_id: instrument_id(inst),
        bid_price: 100_000,
        ask_price: 100_010,
        bid_size: 5,
        ask_size: 7,
        ts_event: 1,
        ts_init: 2,
    }
}

fn bar_at(bar_type_str: &str, ts_event: u64, ts_init: u64) -> Bar {
    Bar {
        bar_type: bar_type_from_str(bar_type_str).expect("canonical bar type"),
        open: 1,
        high: 4,
        low: 1,
        close: 3,
        volume: 10,
        ts_event,
        ts_init,
    }
}

fn delta(inst: &str, order_id: u64, flags: u8) -> OrderBookDelta {
    OrderBookDelta {
        instrument_id: instrument_id(inst),
        action: BookAction::Add,
        order: data_engine::data::BookOrder {
            side: OrderSide::Buy,
            price: 99,
            size: 3,
            order_id,
        },
        flags,
        sequence: order_id,
        ts_event: order_id,
        ts_init: order_id,
    }
}

#[test]
fn test_execute_subscribe_custom_data() {
    let mut engine = fresh_engine(None);
    let adapter = DataClientAdapter::new(client_id("C1"), venue("V1"));
    engine.register_client(adapter, None);

    let data_type = DataType::new("String".to_string(), None);
    let cmd = subscribe_command("C1", "V1", data_type.clone());
    let handler = SubscriptionCommandHandler::new("data_engine_execute".to_string());
    handler.handle(&mut engine, &EngineMessage::Command(cmd));

    let subs = engine.subscribed_custom_data();
    assert!(subs.iter().any(|d| data_type_eq(d, &data_type)));
}

#[test]
fn test_execute_subscribe_order_book_deltas() {
    let mut engine = fresh_engine(None);
    engine.register_client(DataClientAdapter::new(client_id("C1"), venue("V1")), None);

    let metadata = vec![
        ("instrument_id".to_string(), "AUD/USD.SIM".to_string()),
        ("book_type".to_string(), "L3_MBO".to_string()),
    ];
    let data_type = DataType::new("OrderBookDelta".to_string(), Some(metadata));
    engine.execute(&EngineMessage::Command(subscribe_command("C1", "V1", data_type)));

    let subs = engine.subscribed_order_book_deltas();
    assert!(subs.iter().any(|i| *i == instrument_id("AUD/USD.SIM")));
}

#[test]
fn test_execute_subscribe_order_book_snapshots() {
    let mut engine = fresh_engine(None);
    engine.register_client(DataClientAdapter::new(client_id("C1"), venue("V1")), None);

    let metadata = vec![
        ("instrument_id".to_string(), "AUD/USD.SIM".to_string()),
        ("book_type".to_string(), "L2_MBP".to_string()),
    ];
    let data_type = DataType::new("OrderBookDeltas".to_string(), Some(metadata));
    engine.execute(&EngineMessage::Command(subscribe_command("C1", "V1", data_type)));

    let subs = engine.subscribed_order_book_snapshots();
    assert!(subs.iter().any(|i| *i == instrument_id("AUD/USD.SIM")));
}

#[test]
fn test_execute_subscribe_instrument() {
    let mut engine = fresh_engine(None);
    engine.register_client(DataClientAdapter::new(client_id("C1"), venue("V1")), None);

    let metadata = vec![("instrument_id".to_string(), "AUD/USD.SIM".to_string())];
    let data_type = DataType::new("InstrumentAny".to_string(), Some(metadata));
    engine.execute(&EngineMessage::Command(subscribe_command("C1", "V1", data_type)));

    let subs = engine.subscribed_instruments();
    assert!(subs.iter().any(|i| *i == instrument_id("AUD/USD.SIM")));
}

#[test]
fn test_execute_subscribe_quote_ticks() {
    let mut engine = fresh_engine(None);
    engine.register_client(DataClientAdapter::new(client_id("C1"), venue("V1")), None);

    let metadata = vec![("instrument_id".to_string(), "AUD/USD.SIM".to_string())];
    let data_type = DataType::new("QuoteTick".to_string(), Some(metadata));
    engine.execute(&EngineMessage::Command(subscribe_command("C1", "V1", data_type)));

    let subs = engine.subscribed_quote_ticks();
    assert!(subs.iter().any(|i| *i == instrument_id("AUD/USD.SIM")));
}

#[test]
fn test_execute_subscribe_trade_ticks() {
    let mut engine = fresh_engine(None);
    engine.register_client(DataClientAdapter::new(client_id("C1"), venue("V1")), None);

    let metadata = vec![("instrument_id".to_string(), "AUD/USD.SIM".to_string())];
    let data_type = DataType::new("TradeTick".to_string(), Some(metadata));
    engine.execute(&EngineMessage::Command(subscribe_command("C1", "V1", data_type)));

    let subs = engine.subscribed_trade_ticks();
    assert!(subs.iter().any(|i| *i == instrument_id("AUD/USD.SIM")));
}

#[test]
fn test_execute_subscribe_bars() {
    let mut engine = fresh_engine(None);
    engine.register_client(DataClientAdapter::new(client_id("C1"), venue("V1")), None);

    let bar_type_str = "AUDUSD.SIM-1-MINUTE-LAST-INTERNAL";
    let metadata = vec![("bar_type".to_string(), bar_type_str.to_string())];
    let data_type = DataType::new("Bar".to_string(), Some(metadata));
    engine.execute(&EngineMessage::Command(subscribe_command("C1", "V1", data_type)));

    let expected = bar_type_from_str(bar_type_str).expect("canonical bar type");
    let subs = engine.subscribed_bars();
    assert!(subs.iter().any(|b| *b == expected));
}

#[test]
fn test_execute_unknown_client_changes_nothing() {
    let mut engine = fresh_engine(None);
    engine.register_client(DataClientAdapter::new(client_id("C1"), venue("V1")), None);

    let data_type = DataType::new("String".to_string(), None);
    engine.execute(&EngineMessage::Command(subscribe_command("C9", "V1", data_type)));

    assert!(engine.subscribed_custom_data().is_empty());
}

#[test]
fn test_unsubscribe_removes_entry() {
    let mut engine = fresh_engine(None);
    engine.register_client(DataClientAdapter::new(client_id("C1"), venue("V1")), None);

    let metadata = vec![("instrument_id".to_string(), "AUD/USD.SIM".to_string())];
    let data_type = DataType::new("QuoteTick".to_string(), Some(metadata.clone()));
    engine.execute(&EngineMessage::Command(subscribe_command("C1", "V1", data_type)));
    assert_eq!(engine.subscribed_quote_ticks().len(), 1);

    let data_type = DataType::new("QuoteTick".to_string(), Some(metadata));
    let cmd = SubscriptionCommand::new(
        client_id("C1"),
        venue("V1"),
        data_type,
        Action::Unsubscribe,
        2,
        0,
    );
    engine.execute(&EngineMessage::Command(cmd));
    assert!(engine.subscribed_quote_ticks().is_empty());
}

#[test]
fn test_process_quote_publishes_without_replay() {
    let mut engine = fresh_engine(None);
    let quote = default_quote("AUD/USD.SIM");
    engine.process(Data::Quote(quote));

    assert_eq!(engine.cache.quotes.len(), 1);
    assert_eq!(engine.msgbus.publications.len(), 1);
    let publication = &engine.msgbus.publications[0];
    assert!(matches!(&publication.topic, Topic::Quote(i) if *i == instrument_id("AUD/USD.SIM")));
    assert!(matches!(&publication.payload, Payload::Quote(_)));

    // A handler subscribed after the publish observes nothing.
    engine.msgbus.subscribe(Topic::Quote(instrument_id("AUD/USD.SIM")), 7);
    assert!(engine.msgbus.deliveries.is_empty());

    // A later publish reaches it; the first one is never replayed.
    engine.process(Data::Quote(default_quote("AUD/USD.SIM")));
    assert_eq!(engine.msgbus.deliveries.len(), 1);
    assert_eq!(engine.msgbus.deliveries[0].handler, 7);
    assert_eq!(engine.msgbus.deliveries[0].publication, 1);
}

#[test]
fn test_process_trade_caches_then_publishes() {
    let mut engine = fresh_engine(None);
    let trade = TradeTick {
        instrument_id: instrument_id("AUD/USD.SIM"),
        price: 100_005,
        size: 2,
        aggressor_side: OrderSide::Sell,
        trade_id: 42,
        ts_event: 5,
        ts_init: 6,
    };
    engine.process(Data::Trade(trade));
    assert_eq!(engine.cache.trades.len(), 1);
    assert_eq!(engine.msgbus.publications.len(), 1);
    assert!(matches!(&engine.msgbus.publications[0].topic, Topic::Trade(_)));
}

#[test]
fn test_sequence_validation_drops_regressing_bar() {
    let mut config = DataEngineConfig::default();
    config.validate_data_sequence = true;
    let mut engine = fresh_engine(Some(config));

    let bt = "AUDUSD.SIM-1-MINUTE-LAST-INTERNAL";
    let b1 = bar_at(bt, 100, 100);
    engine.process(Data::Bar(b1.clone()));
    assert_eq!(engine.cache.bars.len(), 1);
    assert_eq!(engine.msgbus.publications.len(), 1);

    let b2 = bar_at(bt, 50, 120);
    engine.process(Data::Bar(b2));
    // The regressing bar is neither cached nor published.
    assert_eq!(engine.cache.bars.len(), 1);
    assert_eq!(engine.msgbus.publications.len(), 1);
    let last = engine.cache.bar(&b1.bar_type).expect("last bar present");
    assert_eq!(last.ts_event, 100);
}

#[test]
fn test_sequence_validation_accepts_progressing_bar() {
    let mut config = DataEngineConfig::default();
    config.validate_data_sequence = true;
    let mut engine = fresh_engine(Some(config));

    let bt = "AUDUSD.SIM-1-MINUTE-LAST-INTERNAL";
    engine.process(Data::Bar(bar_at(bt, 100, 100)));
    engine.process(Data::Bar(bar_at(bt, 160, 160)));
    assert_eq!(engine.cache.bars.len(), 2);
    assert_eq!(engine.msgbus.publications.len(), 2);
}

#[test]
fn test_buffered_deltas_flush_as_one_batch() {
    let mut config = DataEngineConfig::default();
    config.buffer_deltas = true;
    let mut engine = fresh_engine(Some(config));

    engine.process(Data::Delta(delta("AUD/USD.SIM", 1, 0)));
    engine.process(Data::Delta(delta("AUD/USD.SIM", 2, 0)));
    assert!(engine.msgbus.publications.is_empty());
    assert_eq!(engine.buffered_deltas_map.len(), 1);

    engine.process(Data::Delta(delta("AUD/USD.SIM", 3, F_LAST)));
    assert_eq!(engine.msgbus.publications.len(), 1);
    match &engine.msgbus.publications[0].payload {
        Payload::Deltas(batch) => {
            assert_eq!(batch.deltas.len(), 3);
            assert_eq!(batch.deltas[0].order.order_id, 1);
            assert_eq!(batch.deltas[1].order.order_id, 2);
            assert_eq!(batch.deltas[2].order.order_id, 3);
        },
        _ => panic!("expected a deltas batch"),
    }
    assert!(engine.buffered_deltas_map.is_empty());
}

#[test]
fn test_unbuffered_delta_publishes_immediately() {
    let mut engine = fresh_engine(None);
    engine.process(Data::Delta(delta("AUD/USD.SIM", 1, 0)));
    assert_eq!(engine.msgbus.publications.len(), 1);
    assert!(matches!(&engine.msgbus.publications[0].topic, Topic::Delta(_)));
    assert!(engine.buffered_deltas_map.is_empty());
}

#[test]
fn test_delta_applies_to_managed_book() {
    let mut engine = fresh_engine(None);
    engine.cache.add_order_book(data_engine::cache::OrderBook::new(
        instrument_id("AUD/USD.SIM"),
        BookType::L3Mbo,
    ));
    engine.process(Data::Delta(delta("AUD/USD.SIM", 9, 0)));
    assert_eq!(engine.cache.books[0].deltas.len(), 1);
    assert_eq!(engine.cache.books[0].deltas[0].order.order_id, 9);
}

#[test]
fn test_routing_fallback() {
    let mut engine = fresh_engine(None);
    engine.register_client(
        DataClientAdapter::new(client_id("C1"), venue("V1")),
        Some(venue("V1")),
    );

    let by_route = engine.get_client(&client_id("C2"), &venue("V1"));
    assert!(by_route.is_some());
    assert_eq!(by_route.unwrap().client_id().as_str(), "C1");

    let missing = engine.get_client(&client_id("C2"), &venue("V2"));
    assert!(missing.is_none());
}

#[test]
fn test_default_client_fallback() {
    let mut engine = fresh_engine(None);
    engine.register_default_client(DataClientAdapter::new(client_id("D"), venue("V0")));
    let resolved = engine.get_client(&client_id("C2"), &venue("V2"));
    assert!(resolved.is_some());
    assert_eq!(resolved.unwrap().client_id().as_str(), "D");
}

#[test]
fn test_register_deregister_round_trip() {
    let mut engine = fresh_engine(None);
    engine.register_client(DataClientAdapter::new(client_id("C0"), venue("V0")), None);
    let before: Vec<String> = engine
        .registed_clients()
        .iter()
        .map(|c| c.as_str().to_string())
        .collect();

    engine.register_client(
        DataClientAdapter::new(client_id("C1"), venue("V1")),
        Some(venue("V1")),
    );
    engine.deregister_client(&client_id("C1"));

    let after: Vec<String> = engine
        .registed_clients()
        .iter()
        .map(|c| c.as_str().to_string())
        .collect();
    assert_eq!(before, after);
    // The departed client's route is gone too.
    assert!(engine.get_client(&client_id("C9"), &venue("V1")).is_none());
}

#[test]
fn test_deregister_unknown_is_noop() {
    let mut engine = fresh_engine(None);
    engine.register_client(DataClientAdapter::new(client_id("C1"), venue("V1")), None);
    engine.deregister_client(&client_id("ZZ"));
    assert_eq!(engine.registed_clients().len(), 1);
}

#[test]
fn test_empty_engine_boundary() {
    let engine = fresh_engine(None);
    assert!(engine.check_connected());
    assert!(engine.check_disconnected());
    assert!(engine.subscribed_custom_data().is_empty());
    assert!(engine.subscribed_instruments().is_empty());
    assert!(engine.subscribed_order_book_deltas().is_empty());
    assert!(engine.subscribed_order_book_snapshots().is_empty());
    assert!(engine.subscribed_quote_ticks().is_empty());
    assert!(engine.subscribed_trade_ticks().is_empty());
    assert!(engine.subscribed_bars().is_empty());
    assert!(engine.subscribed_instrument_status().is_empty());
    assert!(engine.subscribed_instrument_close().is_empty());
}

#[test]
fn test_lifecycle_connect_state() {
    let mut engine = fresh_engine(None);
    engine.register_client(DataClientAdapter::new(client_id("C1"), venue("V1")), None);
    engine.register_client(DataClientAdapter::new(client_id("C2"), venue("V2")), None);

    assert!(!engine.check_connected());
    assert!(engine.check_disconnected());

    engine.start();
    assert!(engine.check_connected());
    assert!(!engine.check_disconnected());

    engine.stop();
    assert!(!engine.check_connected());
    assert!(engine.check_disconnected());

    engine.clock.add_timer(11);
    engine.dispose();
    assert!(engine.clock.timers.is_empty());
    assert!(engine.clients.iter().all(|c| matches!(c.state, AdapterState::Disposed)));
}

#[test]
fn test_request_reaches_addressed_client_only() {
    let mut engine = fresh_engine(None);
    engine.register_client(DataClientAdapter::new(client_id("C1"), venue("V1")), None);

    let req = data_engine::messages::DataRequest {
        client_id: client_id("C1"),
        venue: venue("V1"),
        data_type: DataType::new("QuoteTick".to_string(), None),
        correlation_id: 5,
        ts_init: 0,
    };
    engine.request(req);
    assert_eq!(engine.clients[0].backend_requests.len(), 1);

    let req = data_engine::messages::DataRequest {
        client_id: client_id("C9"),
        venue: venue("V1"),
        data_type: DataType::new("QuoteTick".to_string(), None),
        correlation_id: 6,
        ts_init: 0,
    };
    engine.request(req);
    assert_eq!(engine.clients[0].backend_requests.len(), 1);
}

#[test]
fn test_response_bulk_insert_and_republish() {
    let mut engine = fresh_engine(None);
    let resp = data_engine::messages::DataResponse {
        correlation_id: 9,
        client_id: client_id("C1"),
        venue: venue("V1"),
        data_type: DataType::new("QuoteTick".to_string(), None),
        payload: data_engine::messages::ResponsePayload::Quotes(vec![
            default_quote("AUD/USD.SIM"),
            default_quote("AUD/USD.SIM"),
        ]),
        ts_init: 0,
    };
    engine.response(resp);
    assert_eq!(engine.cache.quotes.len(), 2);
    assert_eq!(engine.msgbus.responses.len(), 1);
    assert!(engine.msgbus.publications.is_empty());
}

#[test]
fn test_response_unknown_kind_republishes_only() {
    let mut engine = fresh_engine(None);
    let resp = data_engine::messages::DataResponse {
        correlation_id: 10,
        client_id: client_id("C1"),
        venue: venue("V1"),
        data_type: DataType::new("Mystery".to_string(), None),
        payload: data_engine::messages::ResponsePayload::Custom(vec![1, 2, 3]),
        ts_init: 0,
    };
    engine.response(resp);
    assert_eq!(engine.cache.quotes.len(), 0);
    assert_eq!(engine.msgbus.responses.len(), 1);
}

#[test]
fn test_send_subscription_command_uses_default() {
    let mut engine = fresh_engine(None);
    engine.register_default_client(DataClientAdapter::new(client_id("D"), venue("V0")));
    let cmd = subscribe_command("C9", "V9", DataType::new("String".to_string(), None));
    engine.send_subscription_command(cmd);
    assert_eq!(
        engine.default_client.as_ref().unwrap().backend_commands.len(),
        1
    );
    // The command went straight through: no subscription set changed.
    assert!(engine.subscribed_custom_data().is_empty());
}

#[test]
fn test_execute_subscribe_status_and_close() {
    let mut engine = fresh_engine(None);
    engine.register_client(DataClientAdapter::new(client_id("C1"), venue("V1")), None);

    let metadata = vec![("instrument_id".to_string(), "AUD/USD.SIM".to_string())];
    let status = DataType::new("InstrumentStatus".to_string(), Some(metadata.clone()));
    engine.execute(&EngineMessage::Command(subscribe_command("C1", "V1", status)));
    let close = DataType::new("InstrumentClose".to_string(), Some(metadata));
    engine.execute(&EngineMessage::Command(subscribe_command("C1", "V1", close)));

    assert!(engine
        .subscribed_instrument_status()
        .iter()
        .any(|i| *i == instrument_id("AUD/USD.SIM")));
    assert!(engine
        .subscribed_instrument_close()
        .iter()
        .any(|i| *i == instrument_id("AUD/USD.SIM")));
}

#[test]
fn test_execute_malformed_command_is_dropped() {
    let mut engine = fresh_engine(None);
    engine.register_client(DataClientAdapter::new(client_id("C1"), venue("V1")), None);

    // A known name without the metadata its key lives in is malformed.
    let data_type = DataType::new("QuoteTick".to_string(), None);
    engine.execute(&EngineMessage::Command(subscribe_command("C1", "V1", data_type)));
    assert!(engine.subscribed_quote_ticks().is_empty());
    assert!(engine.clients[0].backend_commands.is_empty());
}

#[test]
fn test_send_subscription_command_uses_route() {
    let mut engine = fresh_engine(None);
    engine.register_client(
        DataClientAdapter::new(client_id("C1"), venue("V1")),
        Some(venue("V1")),
    );
    let cmd = subscribe_command("C9", "V1", DataType::new("String".to_string(), None));
    engine.send_subscription_command(cmd);
    assert_eq!(engine.clients[0].backend_commands.len(), 1);
    assert!(engine.subscribed_custom_data().is_empty());
}

#[test]
fn test_registed_clients_in_registration_order() {
    let mut engine = fresh_engine(None);
    engine.register_client(DataClientAdapter::new(client_id("C2"), venue("V2")), None);
    engine.register_client(DataClientAdapter::new(client_id("C1"), venue("V1")), None);
    let ids: Vec<String> = engine
        .registed_clients()
        .iter()
        .map(|c| c.as_str().to_string())
        .collect();
    assert_eq!(ids, vec!["C2".to_string(), "C1".to_string()]);
}

#[test]
fn test_sequence_validation_checks_ts_init_too() {
    let mut config = DataEngineConfig::default();
    config.validate_data_sequence = true;
    let mut engine = fresh_engine(Some(config));

    let bt = "AUDUSD.SIM-1-MINUTE-LAST-INTERNAL";
    engine.process(Data::Bar(bar_at(bt, 100, 100)));
    // Same event time, regressing ingress time: dropped.
    engine.process(Data::Bar(bar_at(bt, 100, 90)));
    assert_eq!(engine.cache.bars.len(), 1);
    assert_eq!(engine.msgbus.publications.len(), 1);
}

#[test]
fn test_handle_instrument_caches_and_publishes() {
    let mut engine = fresh_engine(None);
    let instrument = data_engine::data::Instrument {
        id: instrument_id("AUD/USD.SIM"),
        ts_event: 3,
        ts_init: 4,
    };
    engine.handle_instrument(instrument);
    assert_eq!(engine.cache.instruments.len(), 1);
    assert_eq!(engine.msgbus.publications.len(), 1);
    assert!(matches!(
        &engine.msgbus.publications[0].topic,
        Topic::Instrument(i) if *i == instrument_id("AUD/USD.SIM")
    ));
}
