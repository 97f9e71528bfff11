//! Component-level checks: identifiers and enum codes, the bar-type
//! textual form, descriptor metadata, the cache, and the bus.

use data_engine::barform::{bar_type_from_str, bar_type_to_string, u64_dec_string};
use data_engine::cache::{Cache, OrderBook};
use data_engine::data::{
    is_last_flag, Bar, BookOrder, Data, OrderBookDelta, OrderBookDepth10, F_LAST,
};
use data_engine::identifiers::{
    aggregation_source_from_u8, bar_aggregation_from_u8, bar_specification_eq,
    bar_specification_ge, bar_specification_gt, bar_specification_le, bar_specification_lt,
    bar_specification_new, bar_type_eq, bar_type_new, price_type_from_u8, AggregationSource,
    BarAggregation, BookAction, BookType, InstrumentId, OrderSide, PriceType,
};
use data_engine::messages::DataType;
use data_engine::msgbus::{topic_eq, MessageBus, Payload, Topic};

fn instrument_id(name: &str) -> InstrumentId {
    InstrumentId::new(name.to_string())
}

fn sample_delta(inst: &str, order_id: u64) -> OrderBookDelta {
    OrderBookDelta {
        instrument_id: instrument_id(inst),
        action: BookAction::Add,
        order: BookOrder { side: OrderSide::Buy, price: 10, size: 1, order_id },
        flags: 0,
        sequence: order_id,
        ts_event: order_id,
        ts_init: order_id,
    }
}

#[test]
fn test_enum_codes_round_trip() {
    assert_eq!(price_type_from_u8(3), Some(PriceType::Last));
    assert_eq!(price_type_from_u8(4), None);
    assert_eq!(bar_aggregation_from_u8(5), Some(BarAggregation::Minute));
    assert_eq!(bar_aggregation_from_u8(10), None);
    assert_eq!(aggregation_source_from_u8(1), Some(AggregationSource::Internal));
    assert_eq!(aggregation_source_from_u8(2), None);
}

#[test]
fn test_bar_specification_ordering() {
    let a = bar_specification_new(1, 5, 3);
    let b = bar_specification_new(2, 5, 3);
    let c = bar_specification_new(1, 6, 0);
    assert!(bar_specification_lt(&a, &b));
    assert!(bar_specification_lt(&a, &c));
    assert!(bar_specification_le(&a, &a));
    assert!(bar_specification_gt(&b, &a));
    assert!(bar_specification_ge(&b, &b));
    assert!(bar_specification_eq(&a, &a));
    assert!(!bar_specification_eq(&a, &b));
}

#[test]
fn test_bar_type_textual_round_trip() {
    let spec = bar_specification_new(15, 5, 3);
    let bt = bar_type_new(instrument_id("AUDUSD.SIM"), spec, 1);
    let text = bar_type_to_string(&bt);
    assert_eq!(text, "AUDUSD.SIM-15-MINUTE-LAST-INTERNAL");
    let parsed = bar_type_from_str(&text).expect("canonical form parses");
    assert!(bar_type_eq(&parsed, &bt));
}

#[test]
fn test_bar_type_from_str_rejects_junk() {
    assert!(bar_type_from_str("").is_none());
    assert!(bar_type_from_str("AUDUSD.SIM-1-MINUTE-LAST").is_none());
    assert!(bar_type_from_str("-1-MINUTE-LAST-INTERNAL").is_none());
    assert!(bar_type_from_str("AUDUSD.SIM-01-MINUTE-LAST-INTERNAL").is_none());
    assert!(bar_type_from_str("AUDUSD.SIM-1-MINUTELY-LAST-INTERNAL").is_none());
    assert!(bar_type_from_str("AUDUSD.SIM-1-MINUTE-LAST-NOWHERE").is_none());
    assert!(bar_type_from_str("AUDUSD.SIM-x-MINUTE-LAST-INTERNAL").is_none());
}

#[test]
fn test_bar_type_from_str_instrument_with_dash() {
    let parsed = bar_type_from_str("AUD-USD.SIM-1-DAY-BID-EXTERNAL").expect("parses");
    assert_eq!(parsed.instrument_id.as_str(), "AUD-USD.SIM");
    assert_eq!(parsed.spec.step, 1);
    assert_eq!(parsed.spec.aggregation, BarAggregation::Day);
    assert_eq!(parsed.spec.price_type, PriceType::Bid);
    assert_eq!(parsed.aggregation_source, AggregationSource::External);
}

#[test]
fn test_u64_decimal_form() {
    assert_eq!(u64_dec_string(0), "0");
    assert_eq!(u64_dec_string(7), "7");
    assert_eq!(u64_dec_string(1209), "1209");
    assert_eq!(u64_dec_string(u64::MAX), "18446744073709551615");
}

#[test]
fn test_last_flag() {
    assert!(is_last_flag(F_LAST));
    assert!(is_last_flag(F_LAST | 1));
    assert!(!is_last_flag(0));
    assert!(!is_last_flag(64));
}

#[test]
fn test_metadata_get_first_match() {
    let dt = DataType::new(
        "QuoteTick".to_string(),
        Some(vec![
            ("key".to_string(), "first".to_string()),
            ("key".to_string(), "second".to_string()),
            ("other".to_string(), "x".to_string()),
        ]),
    );
    assert_eq!(dt.metadata_get("key").unwrap(), "first");
    assert_eq!(dt.metadata_get("other").unwrap(), "x");
    assert!(dt.metadata_get("absent").is_none());
    let bare = DataType::new("QuoteTick".to_string(), None);
    assert!(bare.metadata_get("key").is_none());
}

#[test]
fn test_cache_last_bar_lookup() {
    let mut cache = Cache::new();
    let bt1 = bar_type_from_str("A.SIM-1-MINUTE-LAST-INTERNAL").unwrap();
    let bt2 = bar_type_from_str("B.SIM-1-MINUTE-LAST-INTERNAL").unwrap();
    assert!(cache.bar(&bt1).is_none());
    let bar = |bt: &str, ts: u64| Bar {
        bar_type: bar_type_from_str(bt).unwrap(),
        open: 1,
        high: 2,
        low: 1,
        close: 2,
        volume: 3,
        ts_event: ts,
        ts_init: ts,
    };
    cache.add_bar(bar("A.SIM-1-MINUTE-LAST-INTERNAL", 10));
    cache.add_bar(bar("B.SIM-1-MINUTE-LAST-INTERNAL", 20));
    cache.add_bar(bar("A.SIM-1-MINUTE-LAST-INTERNAL", 30));
    assert_eq!(cache.bar(&bt1).unwrap().ts_event, 30);
    assert_eq!(cache.bar(&bt2).unwrap().ts_event, 20);
}

#[test]
fn test_depth_snapshot_rejected_on_order_level_book() {
    let mut cache = Cache::new();
    cache.add_order_book(OrderBook::new(instrument_id("X.SIM"), BookType::L3Mbo));
    let depth = OrderBookDepth10 {
        instrument_id: instrument_id("X.SIM"),
        bids: vec![],
        asks: vec![],
        ts_event: 1,
        ts_init: 1,
    };
    let applied = cache.apply_to_book(&Data::Depth10(depth));
    assert!(!applied);
    assert!(cache.books[0].depths.is_empty());
}

#[test]
fn test_depth_snapshot_applies_to_price_level_book() {
    let mut cache = Cache::new();
    cache.add_order_book(OrderBook::new(instrument_id("X.SIM"), BookType::L2Mbp));
    let depth = OrderBookDepth10 {
        instrument_id: instrument_id("X.SIM"),
        bids: vec![BookOrder { side: OrderSide::Buy, price: 9, size: 1, order_id: 1 }],
        asks: vec![BookOrder { side: OrderSide::Sell, price: 11, size: 1, order_id: 2 }],
        ts_event: 1,
        ts_init: 1,
    };
    let applied = cache.apply_to_book(&Data::Depth10(depth));
    assert!(applied);
    assert_eq!(cache.books[0].depths.len(), 1);
}

#[test]
fn test_book_absent_means_externally_managed() {
    let mut cache = Cache::new();
    let applied = cache.apply_to_book(&Data::Delta(sample_delta("UNMANAGED.SIM", 1)));
    assert!(!applied);
    assert!(cache.books.is_empty());
}

#[test]
fn test_bus_delivers_to_standing_subscribers_in_order() {
    let mut bus = MessageBus::new();
    bus.subscribe(Topic::Delta(instrument_id("X.SIM")), 1);
    bus.subscribe(Topic::Delta(instrument_id("X.SIM")), 2);
    bus.subscribe(Topic::Trade(instrument_id("X.SIM")), 3);
    bus.publish(
        Topic::Delta(instrument_id("X.SIM")),
        Payload::Delta(sample_delta("X.SIM", 5)),
    );
    assert_eq!(bus.publications.len(), 1);
    assert_eq!(bus.deliveries.len(), 2);
    assert_eq!(bus.deliveries[0].handler, 1);
    assert_eq!(bus.deliveries[1].handler, 2);
    assert_eq!(bus.deliveries[0].publication, 0);
}

#[test]
fn test_topic_equality() {
    let a = Topic::Quote(instrument_id("X.SIM"));
    let b = Topic::Quote(instrument_id("X.SIM"));
    let c = Topic::Trade(instrument_id("X.SIM"));
    let d = Topic::Quote(instrument_id("Y.SIM"));
    assert!(topic_eq(&a, &b));
    assert!(!topic_eq(&a, &c));
    assert!(!topic_eq(&a, &d));
}

#[test]
fn test_bus_endpoint_registration() {
    let mut bus = MessageBus::new();
    assert_eq!(bus.switchboard.data_engine_execute, "data_engine_execute");
    let endpoint = bus.switchboard.data_engine_execute.clone();
    bus.register(endpoint, 9);
    assert_eq!(bus.endpoints.len(), 1);
    assert_eq!(bus.endpoints[0].1, 9);
}

#[test]
fn test_bar_type_ordering() {
    let a = bar_type_new(instrument_id("AAA.SIM"), bar_specification_new(1, 5, 3), 1);
    let b = bar_type_new(instrument_id("BBB.SIM"), bar_specification_new(1, 5, 3), 1);
    let c = bar_type_new(instrument_id("AAA.SIM"), bar_specification_new(2, 5, 3), 1);
    let d = bar_type_new(instrument_id("AAA.SIM"), bar_specification_new(1, 5, 3), 0);
    assert!(data_engine::identifiers::bar_type_lt(&a, &b));
    assert!(data_engine::identifiers::bar_type_lt(&a, &c));
    assert!(data_engine::identifiers::bar_type_lt(&d, &a));
    assert!(!data_engine::identifiers::bar_type_lt(&a, &a));
    assert!(data_engine::identifiers::bar_type_le(&a, &a));
    assert!(data_engine::identifiers::bar_type_ge(&b, &a));
    assert!(data_engine::identifiers::bar_type_gt(&c, &a));
}
