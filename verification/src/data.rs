//! Market-data event payloads: order-book deltas and snapshots, quotes,
//! trades, bars and instrument reference data, and the tagged union that the
//! data processor dispatches on.
//!
//! Prices are fixed-point raw values and sizes are raw quantities; every
//! payload carries `ts_event` (source-assigned) and `ts_init`
//! (ingress-assigned) nanosecond timestamps.

use vstd::prelude::*;

use crate::identifiers::{BarType, BarTypeView, BookAction, InstrumentId, OrderSide};

verus! {

/// Nanosecond timestamp as assigned by the event source or at ingress.
pub type UnixNanos = u64;

/// Record flag bit marking the final delta of a batch.
pub const F_LAST: u8 = 128;

/// True iff the flag byte carries the end-of-batch mark.
pub open spec fn spec_is_last(flags: u8) -> bool {
    flags & F_LAST != 0
}

/// Tests the end-of-batch bit of a delta's flag byte.
pub fn is_last_flag(flags: u8) -> (r: bool)
    ensures
        r == spec_is_last(flags),
{
    flags & F_LAST != 0
}

/// One resting order as carried by a delta or a depth snapshot.
#[derive(Clone, Copy, PartialEq, Eq, Structural, Debug)]
pub struct BookOrder {
    pub side: OrderSide,
    pub price: i64,
    pub size: u64,
    pub order_id: u64,
}

/// Mathematical value of an order-book delta.
pub struct OrderBookDeltaView {
    pub instrument_id: Seq<char>,
    pub action: BookAction,
    pub order: BookOrder,
    pub flags: u8,
    pub sequence: u64,
    pub ts_event: UnixNanos,
    pub ts_init: UnixNanos,
}

/// A single order-book mutation.
#[derive(Debug)]
pub struct OrderBookDelta {
    pub instrument_id: InstrumentId,
    pub action: BookAction,
    pub order: BookOrder,
    pub flags: u8,
    pub sequence: u64,
    pub ts_event: UnixNanos,
    pub ts_init: UnixNanos,
}

impl View for OrderBookDelta {
    type V = OrderBookDeltaView;

    open spec fn view(&self) -> OrderBookDeltaView {
        OrderBookDeltaView {
            instrument_id: self.instrument_id@,
            action: self.action,
            order: self.order,
            flags: self.flags,
            sequence: self.sequence,
            ts_event: self.ts_event,
            ts_init: self.ts_init,
        }
    }
}

impl Clone for OrderBookDelta {
    fn clone(&self) -> (r: Self)
        ensures
            r@ == self@,
    {
        OrderBookDelta {
            instrument_id: self.instrument_id.clone(),
            action: self.action,
            order: self.order,
            flags: self.flags,
            sequence: self.sequence,
            ts_event: self.ts_event,
            ts_init: self.ts_init,
        }
    }
}

/// Mathematical value of an atomic batch of deltas.
pub struct OrderBookDeltasView {
    pub instrument_id: Seq<char>,
    pub deltas: Seq<OrderBookDeltaView>,
    pub ts_event: UnixNanos,
    pub ts_init: UnixNanos,
}

/// An atomic batch of order-book deltas for one instrument.
#[derive(Debug)]
pub struct OrderBookDeltas {
    pub instrument_id: InstrumentId,
    pub deltas: Vec<OrderBookDelta>,
    pub ts_event: UnixNanos,
    pub ts_init: UnixNanos,
}

impl View for OrderBookDeltas {
    type V = OrderBookDeltasView;

    open spec fn view(&self) -> OrderBookDeltasView {
        OrderBookDeltasView {
            instrument_id: self.instrument_id@,
            deltas: self.deltas@.map(|i: int, d: OrderBookDelta| d@),
            ts_event: self.ts_event,
            ts_init: self.ts_init,
        }
    }
}

impl Clone for OrderBookDeltas {
    fn clone(&self) -> (r: Self)
        ensures
            r@ == self@,
    {
        let mut deltas: Vec<OrderBookDelta> = Vec::new();
        let mut i: usize = 0;
        while i < self.deltas.len()
            invariant
                i <= self.deltas.len(),
                deltas@.len() == i,
                forall|k: int| 0 <= k < i ==> deltas@[k]@ == self.deltas@[k]@,
            decreases self.deltas.len() - i,
        {
            deltas.push(self.deltas[i].clone());
            i = i + 1;
        }
        let r = OrderBookDeltas {
            instrument_id: self.instrument_id.clone(),
            deltas,
            ts_event: self.ts_event,
            ts_init: self.ts_init,
        };
        proof {
            assert(r@.deltas =~= self@.deltas);
        }
        r
    }
}

/// Mathematical value of a top-ten depth snapshot.
pub struct OrderBookDepth10View {
    pub instrument_id: Seq<char>,
    pub bids: Seq<BookOrder>,
    pub asks: Seq<BookOrder>,
    pub ts_event: UnixNanos,
    pub ts_init: UnixNanos,
}

/// A snapshot of the top ten levels of each side of a book.
#[derive(Debug)]
pub struct OrderBookDepth10 {
    pub instrument_id: InstrumentId,
    pub bids: Vec<BookOrder>,
    pub asks: Vec<BookOrder>,
    pub ts_event: UnixNanos,
    pub ts_init: UnixNanos,
}

impl View for OrderBookDepth10 {
    type V = OrderBookDepth10View;

    open spec fn view(&self) -> OrderBookDepth10View {
        OrderBookDepth10View {
            instrument_id: self.instrument_id@,
            bids: self.bids@,
            asks: self.asks@,
            ts_event: self.ts_event,
            ts_init: self.ts_init,
        }
    }
}

impl Clone for OrderBookDepth10 {
    fn clone(&self) -> (r: Self)
        ensures
            r@ == self@,
    {
        let mut bids: Vec<BookOrder> = Vec::new();
        let mut i: usize = 0;
        while i < self.bids.len()
            invariant
                i <= self.bids.len(),
                bids@ == self.bids@.subrange(0, i as int),
            decreases self.bids.len() - i,
        {
            bids.push(self.bids[i]);
            proof {
                assert(bids@ =~= self.bids@.subrange(0, i + 1));
            }
            i = i + 1;
        }
        let mut asks: Vec<BookOrder> = Vec::new();
        let mut j: usize = 0;
        while j < self.asks.len()
            invariant
                j <= self.asks.len(),
                asks@ == self.asks@.subrange(0, j as int),
            decreases self.asks.len() - j,
        {
            asks.push(self.asks[j]);
            proof {
                assert(asks@ =~= self.asks@.subrange(0, j + 1));
            }
            j = j + 1;
        }
        proof {
            assert(self.bids@.subrange(0, self.bids@.len() as int) =~= self.bids@);
            assert(self.asks@.subrange(0, self.asks@.len() as int) =~= self.asks@);
        }
        OrderBookDepth10 {
            instrument_id: self.instrument_id.clone(),
            bids,
            asks,
            ts_event: self.ts_event,
            ts_init: self.ts_init,
        }
    }
}

/// Mathematical value of a quote tick.
pub struct QuoteTickView {
    pub instrument_id: Seq<char>,
    pub bid_price: i64,
    pub ask_price: i64,
    pub bid_size: u64,
    pub ask_size: u64,
    pub ts_event: UnixNanos,
    pub ts_init: UnixNanos,
}

/// Best bid and ask of an instrument at one moment.
#[derive(Debug)]
pub struct QuoteTick {
    pub instrument_id: InstrumentId,
    pub bid_price: i64,
    pub ask_price: i64,
    pub bid_size: u64,
    pub ask_size: u64,
    pub ts_event: UnixNanos,
    pub ts_init: UnixNanos,
}

impl View for QuoteTick {
    type V = QuoteTickView;

    open spec fn view(&self) -> QuoteTickView {
        QuoteTickView {
            instrument_id: self.instrument_id@,
            bid_price: self.bid_price,
            ask_price: self.ask_price,
            bid_size: self.bid_size,
            ask_size: self.ask_size,
            ts_event: self.ts_event,
            ts_init: self.ts_init,
        }
    }
}

impl Clone for QuoteTick {
    fn clone(&self) -> (r: Self)
        ensures
            r@ == self@,
    {
        QuoteTick {
            instrument_id: self.instrument_id.clone(),
            bid_price: self.bid_price,
            ask_price: self.ask_price,
            bid_size: self.bid_size,
            ask_size: self.ask_size,
            ts_event: self.ts_event,
            ts_init: self.ts_init,
        }
    }
}

/// Mathematical value of a trade tick.
pub struct TradeTickView {
    pub instrument_id: Seq<char>,
    pub price: i64,
    pub size: u64,
    pub aggressor_side: OrderSide,
    pub trade_id: u64,
    pub ts_event: UnixNanos,
    pub ts_init: UnixNanos,
}

/// A single executed trade on an instrument.
#[derive(Debug)]
pub struct TradeTick {
    pub instrument_id: InstrumentId,
    pub price: i64,
    pub size: u64,
    pub aggressor_side: OrderSide,
    pub trade_id: u64,
    pub ts_event: UnixNanos,
    pub ts_init: UnixNanos,
}

impl View for TradeTick {
    type V = TradeTickView;

    open spec fn view(&self) -> TradeTickView {
        TradeTickView {
            instrument_id: self.instrument_id@,
            price: self.price,
            size: self.size,
            aggressor_side: self.aggressor_side,
            trade_id: self.trade_id,
            ts_event: self.ts_event,
            ts_init: self.ts_init,
        }
    }
}

impl Clone for TradeTick {
    fn clone(&self) -> (r: Self)
        ensures
            r@ == self@,
    {
        TradeTick {
            instrument_id: self.instrument_id.clone(),
            price: self.price,
            size: self.size,
            aggressor_side: self.aggressor_side,
            trade_id: self.trade_id,
            ts_event: self.ts_event,
            ts_init: self.ts_init,
        }
    }
}

/// Mathematical value of a bar.
pub struct BarView {
    pub bar_type: BarTypeView,
    pub open: i64,
    pub high: i64,
    pub low: i64,
    pub close: i64,
    pub volume: u64,
    pub ts_event: UnixNanos,
    pub ts_init: UnixNanos,
}

/// OHLCV aggregate of ticks over a window defined by its bar type.
#[derive(Debug)]
pub struct Bar {
    pub bar_type: BarType,
    pub open: i64,
    pub high: i64,
    pub low: i64,
    pub close: i64,
    pub volume: u64,
    pub ts_event: UnixNanos,
    pub ts_init: UnixNanos,
}

impl View for Bar {
    type V = BarView;

    open spec fn view(&self) -> BarView {
        BarView {
            bar_type: self.bar_type@,
            open: self.open,
            high: self.high,
            low: self.low,
            close: self.close,
            volume: self.volume,
            ts_event: self.ts_event,
            ts_init: self.ts_init,
        }
    }
}

impl Clone for Bar {
    fn clone(&self) -> (r: Self)
        ensures
            r@ == self@,
    {
        Bar {
            bar_type: self.bar_type.clone(),
            open: self.open,
            high: self.high,
            low: self.low,
            close: self.close,
            volume: self.volume,
            ts_event: self.ts_event,
            ts_init: self.ts_init,
        }
    }
}

/// Mathematical value of an instrument reference record.
pub struct InstrumentView {
    pub id: Seq<char>,
    pub ts_event: UnixNanos,
    pub ts_init: UnixNanos,
}

/// Reference data describing one instrument.
#[derive(Debug)]
pub struct Instrument {
    pub id: InstrumentId,
    pub ts_event: UnixNanos,
    pub ts_init: UnixNanos,
}

impl View for Instrument {
    type V = InstrumentView;

    open spec fn view(&self) -> InstrumentView {
        InstrumentView { id: self.id@, ts_event: self.ts_event, ts_init: self.ts_init }
    }
}

impl Clone for Instrument {
    fn clone(&self) -> (r: Self)
        ensures
            r@ == self@,
    {
        Instrument { id: self.id.clone(), ts_event: self.ts_event, ts_init: self.ts_init }
    }
}

/// Mathematical value of an inbound data event.
pub enum DataView {
    Delta(OrderBookDeltaView),
    Deltas(OrderBookDeltasView),
    Depth10(OrderBookDepth10View),
    Quote(QuoteTickView),
    Trade(TradeTickView),
    Bar(BarView),
}

/// Closed tagged union of the inbound market-data events.
#[derive(Debug)]
pub enum Data {
    Delta(OrderBookDelta),
    Deltas(OrderBookDeltas),
    Depth10(OrderBookDepth10),
    Quote(QuoteTick),
    Trade(TradeTick),
    Bar(Bar),
}

impl View for Data {
    type V = DataView;

    open spec fn view(&self) -> DataView {
        match self {
            Data::Delta(d) => DataView::Delta(d@),
            Data::Deltas(d) => DataView::Deltas(d@),
            Data::Depth10(d) => DataView::Depth10(d@),
            Data::Quote(q) => DataView::Quote(q@),
            Data::Trade(t) => DataView::Trade(t@),
            Data::Bar(b) => DataView::Bar(b@),
        }
    }
}

} // verus!
