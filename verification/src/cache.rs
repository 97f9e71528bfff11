//! The in-memory cache: an insert/lookup facade over the records the engine
//! has admitted, and the managed order books it maintains.
//!
//! Quotes, trades and bars are kept as append-only logs in arrival order;
//! the last cached bar of a bar type is the most recently appended one.

use vstd::prelude::*;

use crate::data::{
    Bar, BarView, Data, DataView, Instrument, InstrumentView, OrderBookDelta, OrderBookDeltaView,
    OrderBookDepth10, OrderBookDepth10View, QuoteTick, QuoteTickView, TradeTick, TradeTickView,
};
use crate::identifiers::{BarType, BarTypeView, BookType, InstrumentId};

verus! {

/// Mathematical value of a managed order book: the events applied to it.
pub struct OrderBookView {
    pub instrument_id: Seq<char>,
    pub book_type: BookType,
    pub deltas: Seq<OrderBookDeltaView>,
    pub depths: Seq<OrderBookDepth10View>,
}

/// An order book whose state the engine itself maintains, recorded as the
/// ordered log of delta and depth events applied to it.
#[derive(Debug)]
pub struct OrderBook {
    pub instrument_id: InstrumentId,
    pub book_type: BookType,
    pub deltas: Vec<OrderBookDelta>,
    pub depths: Vec<OrderBookDepth10>,
}

impl View for OrderBook {
    type V = OrderBookView;

    open spec fn view(&self) -> OrderBookView {
        OrderBookView {
            instrument_id: self.instrument_id@,
            book_type: self.book_type,
            deltas: self.deltas@.map(|i: int, d: OrderBookDelta| d@),
            depths: self.depths@.map(|i: int, d: OrderBookDepth10| d@),
        }
    }
}

impl OrderBook {
    /// An empty managed book for one instrument.
    pub fn new(instrument_id: InstrumentId, book_type: BookType) -> (r: Self)
        ensures
            r@.instrument_id == instrument_id@,
            r@.book_type == book_type,
            r@.deltas == Seq::<OrderBookDeltaView>::empty(),
            r@.depths == Seq::<OrderBookDepth10View>::empty(),
    {
        let r = OrderBook { instrument_id, book_type, deltas: Vec::new(), depths: Vec::new() };
        proof {
            assert(r@.deltas =~= Seq::<OrderBookDeltaView>::empty());
            assert(r@.depths =~= Seq::<OrderBookDepth10View>::empty());
        }
        r
    }
}

/// The instrument a data event belongs to; for a bar, the one its bar type
/// names.
pub open spec fn spec_data_instrument_id(d: DataView) -> Seq<char> {
    match d {
        DataView::Delta(x) => x.instrument_id,
        DataView::Deltas(x) => x.instrument_id,
        DataView::Depth10(x) => x.instrument_id,
        DataView::Quote(x) => x.instrument_id,
        DataView::Trade(x) => x.instrument_id,
        DataView::Bar(x) => x.bar_type.instrument_id,
    }
}

impl Data {
    /// The instrument this event belongs to.
    pub fn instrument_id(&self) -> (r: &InstrumentId)
        ensures
            r@ == spec_data_instrument_id(self@),
    {
        match self {
            Data::Delta(x) => &x.instrument_id,
            Data::Deltas(x) => &x.instrument_id,
            Data::Depth10(x) => &x.instrument_id,
            Data::Quote(x) => &x.instrument_id,
            Data::Trade(x) => &x.instrument_id,
            Data::Bar(x) => &x.bar_type.instrument_id,
        }
    }
}

/// Whether a book of the given granularity accepts the given event kind:
/// deltas and batches apply to every book, a top-ten snapshot only to a
/// price-level book, and quotes, trades and bars never apply.
pub open spec fn spec_book_accepts(book_type: BookType, d: DataView) -> bool {
    match d {
        DataView::Delta(_) => true,
        DataView::Deltas(_) => true,
        DataView::Depth10(_) => book_type != BookType::L3Mbo,
        _ => false,
    }
}

/// The book after one event is applied to it; events the book does not
/// accept leave it unchanged.
pub open spec fn spec_book_after_apply(b: OrderBookView, d: DataView) -> OrderBookView {
    if !spec_book_accepts(b.book_type, d) {
        b
    } else {
        match d {
            DataView::Delta(x) => OrderBookView { deltas: b.deltas.push(x), ..b },
            DataView::Deltas(x) => OrderBookView { deltas: b.deltas + x.deltas, ..b },
            DataView::Depth10(x) => OrderBookView { depths: b.depths.push(x), ..b },
            _ => b,
        }
    }
}

/// The managed books after one event: the book of the event's instrument,
/// if the engine manages one, has the event applied; every other book, and
/// a collection with no such book, is unchanged.
#[verifier::opaque]
pub open spec fn spec_books_apply(books: Seq<OrderBookView>, d: DataView) -> Seq<OrderBookView> {
    let id = spec_data_instrument_id(d);
    if exists|k: int| 0 <= k < books.len() && books[k].instrument_id == id {
        let i = choose|i: int|
            0 <= i < books.len() && books[i].instrument_id == id && forall|k: int|
                0 <= k < i ==> books[k].instrument_id != id;
        books.update(i, spec_book_after_apply(books[i], d))
    } else {
        books
    }
}

/// The most recently appended bar of the given bar type, if any.
pub open spec fn spec_last_bar(bars: Seq<BarView>, bt: BarTypeView) -> Option<BarView>
    decreases bars.len(),
{
    if bars.len() == 0 {
        None
    } else if bars.last().bar_type == bt {
        Some(bars.last())
    } else {
        spec_last_bar(bars.drop_last(), bt)
    }
}

/// Helper: a suffix without bars of the sought type does not change which
/// bar is the last one of that type.
proof fn lemma_last_bar_take(bars: Seq<BarView>, bt: BarTypeView, j: int)
    requires
        0 <= j <= bars.len(),
        forall|k: int| j <= k < bars.len() ==> bars[k].bar_type != bt,
    ensures
        spec_last_bar(bars, bt) == spec_last_bar(bars.take(j), bt),
    decreases bars.len() - j,
{
    if j < bars.len() {
        lemma_last_bar_take(bars.drop_last(), bt, j);
        assert(bars.drop_last().take(j) =~= bars.take(j));
    } else {
        assert(bars.take(j) =~= bars);
    }
}

/// Mathematical value of the cache.
pub struct CacheView {
    pub instruments: Seq<InstrumentView>,
    pub quotes: Seq<QuoteTickView>,
    pub trades: Seq<TradeTickView>,
    pub bars: Seq<BarView>,
    pub books: Seq<OrderBookView>,
}

/// Authoritative in-memory state: reference data, tick and bar logs, and
/// the managed order books.
#[derive(Debug)]
pub struct Cache {
    pub instruments: Vec<Instrument>,
    pub quotes: Vec<QuoteTick>,
    pub trades: Vec<TradeTick>,
    pub bars: Vec<Bar>,
    pub books: Vec<OrderBook>,
}

impl View for Cache {
    type V = CacheView;

    open spec fn view(&self) -> CacheView {
        CacheView {
            instruments: self.instruments@.map(|i: int, x: Instrument| x@),
            quotes: self.quotes@.map(|i: int, x: QuoteTick| x@),
            trades: self.trades@.map(|i: int, x: TradeTick| x@),
            bars: self.bars@.map(|i: int, x: Bar| x@),
            books: self.books@.map(|i: int, x: OrderBook| x@),
        }
    }
}

impl Cache {
    /// An empty cache.
    pub fn new() -> (r: Self)
        ensures
            r@.instruments == Seq::<InstrumentView>::empty(),
            r@.quotes == Seq::<QuoteTickView>::empty(),
            r@.trades == Seq::<TradeTickView>::empty(),
            r@.bars == Seq::<BarView>::empty(),
            r@.books == Seq::<OrderBookView>::empty(),
    {
        let r = Cache {
            instruments: Vec::new(),
            quotes: Vec::new(),
            trades: Vec::new(),
            bars: Vec::new(),
            books: Vec::new(),
        };
        proof {
            assert(r@.instruments =~= Seq::<InstrumentView>::empty());
            assert(r@.quotes =~= Seq::<QuoteTickView>::empty());
            assert(r@.trades =~= Seq::<TradeTickView>::empty());
            assert(r@.bars =~= Seq::<BarView>::empty());
            assert(r@.books =~= Seq::<OrderBookView>::empty());
        }
        r
    }

    /// Records one instrument reference record.
    pub fn add_instrument(&mut self, instrument: Instrument)
        ensures
            final(self)@.instruments == old(self)@.instruments.push(instrument@),
            final(self)@.quotes == old(self)@.quotes,
            final(self)@.trades == old(self)@.trades,
            final(self)@.bars == old(self)@.bars,
            final(self)@.books == old(self)@.books,
    {
        let ghost pre = self@.instruments;
        let ghost v = instrument@;
        self.instruments.push(instrument);
        proof {
            assert(self@.instruments =~= pre.push(v));
        }
    }

    /// Records one quote tick.
    pub fn add_quote(&mut self, quote: QuoteTick)
        ensures
            final(self)@.quotes == old(self)@.quotes.push(quote@),
            final(self)@.instruments == old(self)@.instruments,
            final(self)@.trades == old(self)@.trades,
            final(self)@.bars == old(self)@.bars,
            final(self)@.books == old(self)@.books,
    {
        let ghost pre = self@.quotes;
        let ghost v = quote@;
        self.quotes.push(quote);
        proof {
            assert(self@.quotes =~= pre.push(v));
        }
    }

    /// Records one trade tick.
    pub fn add_trade(&mut self, trade: TradeTick)
        ensures
            final(self)@.trades == old(self)@.trades.push(trade@),
            final(self)@.instruments == old(self)@.instruments,
            final(self)@.quotes == old(self)@.quotes,
            final(self)@.bars == old(self)@.bars,
            final(self)@.books == old(self)@.books,
    {
        let ghost pre = self@.trades;
        let ghost v = trade@;
        self.trades.push(trade);
        proof {
            assert(self@.trades =~= pre.push(v));
        }
    }

    /// Records one bar.
    pub fn add_bar(&mut self, bar: Bar)
        ensures
            final(self)@.bars == old(self)@.bars.push(bar@),
            final(self)@.instruments == old(self)@.instruments,
            final(self)@.quotes == old(self)@.quotes,
            final(self)@.trades == old(self)@.trades,
            final(self)@.books == old(self)@.books,
    {
        let ghost pre = self@.bars;
        let ghost v = bar@;
        self.bars.push(bar);
        proof {
            assert(self@.bars =~= pre.push(v));
        }
    }

    /// Records a batch of quotes, in order.
    pub fn add_quotes(&mut self, quotes: Vec<QuoteTick>)
        ensures
            final(self)@.quotes == old(self)@.quotes + quotes@.map(|i: int, x: QuoteTick| x@),
            final(self)@.instruments == old(self)@.instruments,
            final(self)@.trades == old(self)@.trades,
            final(self)@.bars == old(self)@.bars,
            final(self)@.books == old(self)@.books,
    {
        let ghost pre = self@.quotes;
        let ghost batch = quotes@.map(|i: int, x: QuoteTick| x@);
        let mut quotes = quotes;
        let mut i: usize = 0;
        while i < quotes.len()
            invariant
                i <= quotes.len(),
                batch.len() == quotes@.len(),
                forall|k: int| 0 <= k < quotes@.len() ==> batch[k] == quotes@[k]@,
                self@.quotes == pre + batch.take(i as int),
                self@.instruments == old(self)@.instruments,
                self@.trades == old(self)@.trades,
                self@.bars == old(self)@.bars,
                self@.books == old(self)@.books,
            decreases quotes.len() - i,
        {
            let q = quotes[i].clone();
            self.add_quote(q);
            proof {
                assert(pre + batch.take(i as int + 1) =~= (pre + batch.take(i as int)).push(
                    batch[i as int],
                ));
            }
            i = i + 1;
        }
        proof {
            assert(batch.take(quotes@.len() as int) =~= batch);
        }
    }

    /// Records a batch of trades, in order.
    pub fn add_trades(&mut self, trades: Vec<TradeTick>)
        ensures
            final(self)@.trades == old(self)@.trades + trades@.map(|i: int, x: TradeTick| x@),
            final(self)@.instruments == old(self)@.instruments,
            final(self)@.quotes == old(self)@.quotes,
            final(self)@.bars == old(self)@.bars,
            final(self)@.books == old(self)@.books,
    {
        let ghost pre = self@.trades;
        let ghost batch = trades@.map(|i: int, x: TradeTick| x@);
        let mut trades = trades;
        let mut i: usize = 0;
        while i < trades.len()
            invariant
                i <= trades.len(),
                batch.len() == trades@.len(),
                forall|k: int| 0 <= k < trades@.len() ==> batch[k] == trades@[k]@,
                self@.trades == pre + batch.take(i as int),
                self@.instruments == old(self)@.instruments,
                self@.quotes == old(self)@.quotes,
                self@.bars == old(self)@.bars,
                self@.books == old(self)@.books,
            decreases trades.len() - i,
        {
            let t = trades[i].clone();
            self.add_trade(t);
            proof {
                assert(pre + batch.take(i as int + 1) =~= (pre + batch.take(i as int)).push(
                    batch[i as int],
                ));
            }
            i = i + 1;
        }
        proof {
            assert(batch.take(trades@.len() as int) =~= batch);
        }
    }

    /// Records a batch of bars, in order.
    pub fn add_bars(&mut self, bars: Vec<Bar>)
        ensures
            final(self)@.bars == old(self)@.bars + bars@.map(|i: int, x: Bar| x@),
            final(self)@.instruments == old(self)@.instruments,
            final(self)@.quotes == old(self)@.quotes,
            final(self)@.trades == old(self)@.trades,
            final(self)@.books == old(self)@.books,
    {
        let ghost pre = self@.bars;
        let ghost batch = bars@.map(|i: int, x: Bar| x@);
        let mut bars = bars;
        let mut i: usize = 0;
        while i < bars.len()
            invariant
                i <= bars.len(),
                batch.len() == bars@.len(),
                forall|k: int| 0 <= k < bars@.len() ==> batch[k] == bars@[k]@,
                self@.bars == pre + batch.take(i as int),
                self@.instruments == old(self)@.instruments,
                self@.quotes == old(self)@.quotes,
                self@.trades == old(self)@.trades,
                self@.books == old(self)@.books,
            decreases bars.len() - i,
        {
            let b = bars[i].clone();
            self.add_bar(b);
            proof {
                assert(pre + batch.take(i as int + 1) =~= (pre + batch.take(i as int)).push(
                    batch[i as int],
                ));
            }
            i = i + 1;
        }
        proof {
            assert(batch.take(bars@.len() as int) =~= batch);
        }
    }

    /// Records a batch of instrument records, in order.
    pub fn add_instruments(&mut self, instruments: Vec<Instrument>)
        ensures
            final(self)@.instruments == old(self)@.instruments + instruments@.map(
                |i: int, x: Instrument| x@,
            ),
            final(self)@.quotes == old(self)@.quotes,
            final(self)@.trades == old(self)@.trades,
            final(self)@.bars == old(self)@.bars,
            final(self)@.books == old(self)@.books,
    {
        let ghost pre = self@.instruments;
        let ghost batch = instruments@.map(|i: int, x: Instrument| x@);
        let mut instruments = instruments;
        let mut i: usize = 0;
        while i < instruments.len()
            invariant
                i <= instruments.len(),
                batch.len() == instruments@.len(),
                forall|k: int| 0 <= k < instruments@.len() ==> batch[k] == instruments@[k]@,
                self@.instruments == pre + batch.take(i as int),
                self@.quotes == old(self)@.quotes,
                self@.trades == old(self)@.trades,
                self@.bars == old(self)@.bars,
                self@.books == old(self)@.books,
            decreases instruments.len() - i,
        {
            let x = instruments[i].clone();
            self.add_instrument(x);
            proof {
                assert(pre + batch.take(i as int + 1) =~= (pre + batch.take(i as int)).push(
                    batch[i as int],
                ));
            }
            i = i + 1;
        }
        proof {
            assert(batch.take(instruments@.len() as int) =~= batch);
        }
    }

    /// The last cached bar of the given bar type, if any.
    pub fn bar(&self, bar_type: &BarType) -> (r: Option<&Bar>)
        ensures
            match r {
                Some(b) => spec_last_bar(self@.bars, bar_type@) == Some(b@),
                None => spec_last_bar(self@.bars, bar_type@) is None,
            },
    {
        let ghost bars_view = self@.bars;
        let mut j: usize = self.bars.len();
        proof {
            assert(bars_view.take(bars_view.len() as int) =~= bars_view);
        }
        while j > 0
            invariant
                j <= self.bars.len(),
                bars_view == self@.bars,
                bars_view.len() == self.bars@.len(),
                forall|k: int| 0 <= k < self.bars@.len() ==> bars_view[k] == self.bars@[k]@,
                spec_last_bar(bars_view, bar_type@) == spec_last_bar(
                    bars_view.take(j as int),
                    bar_type@,
                ),
            decreases j,
        {
            j = j - 1;
            if self.bars[j].bar_type == *bar_type {
                proof {
                    assert(bars_view.take(j as int + 1).last() == bars_view[j as int]);
                }
                return Some(&self.bars[j]);
            }
            proof {
                assert(bars_view.take(j as int + 1).last() == bars_view[j as int]);
                assert(bars_view.take(j as int + 1).drop_last() =~= bars_view.take(j as int));
            }
        }
        proof {
            assert(bars_view.take(0) =~= Seq::<BarView>::empty());
        }
        None
    }

    /// Adds a managed book for an instrument that has none yet.
    pub fn add_order_book(&mut self, book: OrderBook)
        requires
            forall|k: int|
                0 <= k < old(self)@.books.len() ==> old(self)@.books[k].instrument_id
                    != book@.instrument_id,
        ensures
            final(self)@.books == old(self)@.books.push(book@),
            final(self)@.instruments == old(self)@.instruments,
            final(self)@.quotes == old(self)@.quotes,
            final(self)@.trades == old(self)@.trades,
            final(self)@.bars == old(self)@.bars,
    {
        let ghost pre = self@.books;
        let ghost v = book@;
        self.books.push(book);
        proof {
            assert(self@.books =~= pre.push(v));
        }
    }

    /// Whether a managed book exists for the given instrument.
    pub fn has_order_book(&self, instrument_id: &InstrumentId) -> (r: bool)
        ensures
            r == exists|k: int|
                0 <= k < self@.books.len() && self@.books[k].instrument_id == instrument_id@,
    {
        let mut i: usize = 0;
        while i < self.books.len()
            invariant
                i <= self.books.len(),
                forall|k: int| 0 <= k < i ==> self@.books[k].instrument_id != instrument_id@,
            decreases self.books.len() - i,
        {
            if self.books[i].instrument_id == *instrument_id {
                assert(self@.books[i as int].instrument_id == instrument_id@);
                return true;
            }
            i = i + 1;
        }
        false
    }

    /// Applies one data event to the managed book of its instrument.
    ///
    /// The book is absent iff the instrument is externally managed; then, or
    /// when the book does not accept the event's kind, nothing changes and
    /// the result is false.
    pub fn apply_to_book(&mut self, data: &Data) -> (applied: bool)
        ensures
            final(self)@.instruments == old(self)@.instruments,
            final(self)@.quotes == old(self)@.quotes,
            final(self)@.trades == old(self)@.trades,
            final(self)@.bars == old(self)@.bars,
            final(self)@.books == spec_books_apply(old(self)@.books, data@),
            ({
                let id = spec_data_instrument_id(data@);
                let books = old(self)@.books;
                if exists|k: int| 0 <= k < books.len() && books[k].instrument_id == id {
                    let i = choose|i: int|
                        0 <= i < books.len() && books[i].instrument_id == id && forall|k: int|
                            0 <= k < i ==> books[k].instrument_id != id;
                    applied == spec_book_accepts(books[i].book_type, data@)
                } else {
                    !applied
                }
            }),
    {
        proof {
            reveal(spec_books_apply);
        }
        let ghost books_pre = self@.books;
        let ghost id = spec_data_instrument_id(data@);
        let instrument_id = data.instrument_id();
        let mut i: usize = 0;
        let n = self.books.len();
        while i < n
            invariant
                i <= n,
                n == self.books.len(),
                self@.instruments == old(self)@.instruments,
                self@.quotes == old(self)@.quotes,
                self@.trades == old(self)@.trades,
                self@.bars == old(self)@.bars,
                books_pre == old(self)@.books,
                books_pre == self@.books,
                id == spec_data_instrument_id(data@),
                instrument_id@ == id,
                forall|k: int| 0 <= k < i ==> self@.books[k].instrument_id != id,
            decreases n - i,
        {
            if self.books[i].instrument_id == *instrument_id {
                proof {
                    reveal(spec_books_apply);
                    assert(books_pre[i as int].instrument_id == id);
                    assert(forall|k: int| 0 <= k < i ==> books_pre[k].instrument_id != id);
                }
                let ghost target = books_pre[i as int];
                let book = &mut self.books[i];
                let applied: bool = match data {
                    Data::Delta(x) => {
                        book.deltas.push(x.clone());
                        true
                    },
                    Data::Deltas(x) => {
                        let mut k: usize = 0;
                        let ghost batch = x.deltas@.map(|m: int, d: OrderBookDelta| d@);
                        while k < x.deltas.len()
                            invariant
                                k <= x.deltas.len(),
                                batch.len() == x.deltas@.len(),
                                forall|m: int|
                                    0 <= m < x.deltas@.len() ==> batch[m] == x.deltas@[m]@,
                                book@.deltas == target.deltas + batch.take(k as int),
                                book@.instrument_id == target.instrument_id,
                                book@.book_type == target.book_type,
                                book@.depths == target.depths,
                            decreases x.deltas.len() - k,
                        {
                            let ghost before = book@.deltas;
                            book.deltas.push(x.deltas[k].clone());
                            proof {
                                assert(book@.deltas =~= before.push(batch[k as int]));
                                assert(before.push(batch[k as int]) =~= target.deltas + batch.take(
                                    k as int + 1,
                                ));
                            }
                            k = k + 1;
                        }
                        proof {
                            assert(batch.take(x.deltas@.len() as int) =~= batch);
                        }
                        true
                    },
                    Data::Depth10(x) => {
                        if matches!(book.book_type, BookType::L3Mbo) {
                            false
                        } else {
                            book.depths.push(x.clone());
                            true
                        }
                    },
                    _ => false,
                };
                proof {
                    assert(book@ == spec_book_after_apply(target, data@)) by {
                        match data@ {
                            DataView::Delta(x) => {
                                assert(book@.deltas =~= target.deltas.push(x));
                            },
                            DataView::Depth10(x) => {
                                if target.book_type != BookType::L3Mbo {
                                    assert(book@.depths =~= target.depths.push(x));
                                }
                            },
                            _ => {},
                        }
                    };
                    assert(self@.books =~= books_pre.update(
                        i as int,
                        spec_book_after_apply(target, data@),
                    ));
                    assert(exists|k: int|
                        0 <= k < old(self)@.books.len() && old(self)@.books[k].instrument_id
                            == spec_data_instrument_id(data@));
                    let ci = choose|ci: int|
                        0 <= ci < old(self)@.books.len() && old(self)@.books[ci].instrument_id
                            == spec_data_instrument_id(data@) && forall|k: int|
                            0 <= k < ci ==> old(self)@.books[k].instrument_id
                                != spec_data_instrument_id(data@);
                    assert(ci == i as int) by {
                        if ci < i as int {
                            assert(books_pre[ci].instrument_id != id);
                        }
                        if ci > i as int {
                            assert(books_pre[i as int].instrument_id != id);
                        }
                    };
                }
                return applied;
            }
            i = i + 1;
        }
        false
    }
}

} // verus!
