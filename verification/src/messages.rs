//! Subscription commands, data requests and data responses, and the
//! `DataType` descriptor that addresses them: a type name with an optional
//! ordered string-to-string metadata mapping.

use vstd::prelude::*;

use crate::data::{Bar, Instrument, QuoteTick, TradeTick, UnixNanos};
use crate::identifiers::{ClientId, Venue};

verus! {

/// Mathematical value of a `DataType`.
pub struct DataTypeView {
    pub name: Seq<char>,
    pub metadata: Option<Seq<(Seq<char>, Seq<char>)>>,
}

/// Descriptor of a kind of data: a type name and optional metadata.
#[derive(Debug)]
pub struct DataType {
    pub name: String,
    pub metadata: Option<Vec<(String, String)>>,
}

/// View of a metadata entry list as a sequence of key-value pairs.
pub open spec fn metadata_view(entries: Seq<(String, String)>) -> Seq<(Seq<char>, Seq<char>)> {
    entries.map(|i: int, e: (String, String)| (e.0@, e.1@))
}

impl View for DataType {
    type V = DataTypeView;

    open spec fn view(&self) -> DataTypeView {
        DataTypeView {
            name: self.name@,
            metadata: match self.metadata {
                Some(entries) => Some(metadata_view(entries@)),
                None => None,
            },
        }
    }
}

/// Value under the first entry of `entries` whose key is `key`, if any.
pub open spec fn spec_metadata_get(
    entries: Seq<(Seq<char>, Seq<char>)>,
    key: Seq<char>,
) -> Option<Seq<char>>
    decreases entries.len(),
{
    if entries.len() == 0 {
        None
    } else if entries[0].0 == key {
        Some(entries[0].1)
    } else {
        spec_metadata_get(entries.skip(1), key)
    }
}

/// Helper: when a scan has failed up to `i` and entry `i` matches, the
/// lookup on the whole list finds entry `i`.
pub proof fn lemma_metadata_get_found(entries: Seq<(Seq<char>, Seq<char>)>, i: int, key: Seq<char>)
    requires
        0 <= i < entries.len(),
        spec_metadata_get(entries.take(i), key) is None,
        entries[i].0 == key,
    ensures
        spec_metadata_get(entries, key) == Some(entries[i].1),
    decreases i,
{
    if i > 0 {
        assert(entries.take(i)[0] == entries[0]);
        assert(entries.take(i).skip(1) =~= entries.skip(1).take(i - 1));
        assert(entries.skip(1)[i - 1] == entries[i]);
        lemma_metadata_get_found(entries.skip(1), i - 1, key);
    }
}

impl DataType {
    /// Builds a descriptor from a type name and optional metadata.
    pub fn new(name: String, metadata: Option<Vec<(String, String)>>) -> (r: Self)
        ensures
            r@.name == name@,
            metadata matches Some(m) ==> r@.metadata == Some(metadata_view(m@)),
            metadata is None ==> r@.metadata is None,
    {
        DataType { name, metadata }
    }

    /// The value stored under `key` in the metadata, taking the first entry
    /// with that key; `None` when the metadata is absent or has no such key.
    pub fn metadata_get(&self, key: &str) -> (r: Option<&String>)
        ensures
            match self@.metadata {
                Some(entries) => {
                    match r {
                        Some(v) => spec_metadata_get(entries, key@) == Some(v@),
                        None => spec_metadata_get(entries, key@) is None,
                    }
                },
                None => r is None,
            },
    {
        match &self.metadata {
            None => None,
            Some(entries) => {
                let key_string: String = String::from_str(key);
                let ghost entries_view = metadata_view(entries@);
                let mut i: usize = 0;
                while i < entries.len()
                    invariant
                        i <= entries.len(),
                        key_string@ == key@,
                        self@.metadata == Some(entries_view),
                        entries_view == metadata_view(entries@),
                        entries_view.len() == entries@.len(),
                        forall|k: int| 0 <= k < entries@.len() ==> entries_view[k] == (
                        entries@[k].0@, entries@[k].1@),
                        spec_metadata_get(entries_view.take(i as int), key@) is None,
                    decreases entries.len() - i,
                {
                    if entries[i].0 == key_string {
                        proof {
                            lemma_metadata_get_found(entries_view, i as int, key@);
                        }
                        return Some(&entries[i].1);
                    }
                    proof {
                        lemma_take_push_get(entries_view, i as int, key@);
                    }
                    i = i + 1;
                }
                proof {
                    assert(entries_view.take(entries@.len() as int) =~= entries_view);
                }
                None
            },
        }
    }
}

/// Helper: a lookup on `s.push(e)` first scans `s`, then consults `e`.
pub proof fn lemma_metadata_get_push(s: Seq<(Seq<char>, Seq<char>)>, e: (Seq<char>, Seq<char>), key: Seq<char>)
    ensures
        spec_metadata_get(s.push(e), key) == if spec_metadata_get(s, key) is Some {
            spec_metadata_get(s, key)
        } else if e.0 == key {
            Some(e.1)
        } else {
            None
        },
    decreases s.len(),
{
    if s.len() == 0 {
        assert(s.push(e)[0] == e);
        assert(s.push(e).skip(1) =~= Seq::<(Seq<char>, Seq<char>)>::empty());
        assert(spec_metadata_get(Seq::<(Seq<char>, Seq<char>)>::empty(), key) is None);
    } else {
        assert(s.push(e)[0] == s[0]);
        assert(s.push(e).skip(1) =~= s.skip(1).push(e));
        lemma_metadata_get_push(s.skip(1), e, key);
    }
}

/// Helper: extending an unsuccessful prefix scan by one mismatching entry
/// leaves the scan unsuccessful.
pub proof fn lemma_take_push_get(entries: Seq<(Seq<char>, Seq<char>)>, i: int, key: Seq<char>)
    requires
        0 <= i < entries.len(),
        spec_metadata_get(entries.take(i), key) is None,
        entries[i].0 != key,
    ensures
        spec_metadata_get(entries.take(i + 1), key) is None,
{
    assert(entries.take(i + 1) =~= entries.take(i).push(entries[i]));
    lemma_metadata_get_push(entries.take(i), entries[i], key);
}

impl Clone for DataType {
    fn clone(&self) -> (r: Self)
        ensures
            r@ == self@,
    {
        let metadata = match &self.metadata {
            None => None,
            Some(entries) => {
                let mut copy: Vec<(String, String)> = Vec::new();
                let mut i: usize = 0;
                while i < entries.len()
                    invariant
                        i <= entries.len(),
                        copy@.len() == i,
                        forall|k: int|
                            0 <= k < i ==> copy@[k].0@ == entries@[k].0@ && copy@[k].1@
                                == entries@[k].1@,
                    decreases entries.len() - i,
                {
                    copy.push((entries[i].0.clone(), entries[i].1.clone()));
                    i = i + 1;
                }
                proof {
                    assert(metadata_view(copy@) =~= metadata_view(entries@));
                }
                Some(copy)
            },
        };
        let r = DataType { name: self.name.clone(), metadata };
        proof {
            assert(r@.metadata == self@.metadata);
        }
        r
    }
}

/// Whether two descriptors hold the same name and the same metadata.
pub fn data_type_eq(a: &DataType, b: &DataType) -> (r: bool)
    ensures
        r == (a@ == b@),
{
    if !(a.name == b.name) {
        return false;
    }
    match (&a.metadata, &b.metadata) {
        (None, None) => true,
        (Some(x), Some(y)) => {
            if x.len() != y.len() {
                proof {
                    assert(metadata_view(x@).len() != metadata_view(y@).len());
                }
                return false;
            }
            let mut i: usize = 0;
            while i < x.len()
                invariant
                    i <= x.len(),
                    x@.len() == y@.len(),
                    a@.name == b@.name,
                    a@.metadata == Some(metadata_view(x@)),
                    b@.metadata == Some(metadata_view(y@)),
                    forall|k: int|
                        0 <= k < i ==> x@[k].0@ == y@[k].0@ && x@[k].1@ == y@[k].1@,
                decreases x.len() - i,
            {
                if !(x[i].0 == y[i].0) || !(x[i].1 == y[i].1) {
                    proof {
                        assert(metadata_view(x@)[i as int] != metadata_view(y@)[i as int]);
                    }
                    return false;
                }
                i = i + 1;
            }
            proof {
                assert(metadata_view(x@) =~= metadata_view(y@));
            }
            true
        },
        (None, Some(_)) => false,
        (Some(_), None) => false,
    }
}

/// Whether a subscription command adds or removes a subscription.
#[derive(Clone, Copy, PartialEq, Eq, Structural, Debug)]
pub enum Action {
    Subscribe,
    Unsubscribe,
}

/// Mathematical value of a subscription command.
pub struct SubscriptionCommandView {
    pub client_id: Seq<char>,
    pub venue: Seq<char>,
    pub data_type: DataTypeView,
    pub action: Action,
    pub correlation_id: u64,
    pub ts_init: UnixNanos,
}

/// A command directing one client to begin or end a subscription.
#[derive(Debug)]
pub struct SubscriptionCommand {
    pub client_id: ClientId,
    pub venue: Venue,
    pub data_type: DataType,
    pub action: Action,
    pub correlation_id: u64,
    pub ts_init: UnixNanos,
}

impl View for SubscriptionCommand {
    type V = SubscriptionCommandView;

    open spec fn view(&self) -> SubscriptionCommandView {
        SubscriptionCommandView {
            client_id: self.client_id@,
            venue: self.venue@,
            data_type: self.data_type@,
            action: self.action,
            correlation_id: self.correlation_id,
            ts_init: self.ts_init,
        }
    }
}

impl SubscriptionCommand {
    /// Builds a subscription command.
    pub fn new(
        client_id: ClientId,
        venue: Venue,
        data_type: DataType,
        action: Action,
        correlation_id: u64,
        ts_init: UnixNanos,
    ) -> (r: Self)
        ensures
            r@.client_id == client_id@,
            r@.venue == venue@,
            r@.data_type == data_type@,
            r@.action == action,
            r@.correlation_id == correlation_id,
            r@.ts_init == ts_init,
    {
        SubscriptionCommand { client_id, venue, data_type, action, correlation_id, ts_init }
    }
}

impl Clone for SubscriptionCommand {
    fn clone(&self) -> (r: Self)
        ensures
            r@ == self@,
    {
        SubscriptionCommand {
            client_id: self.client_id.clone(),
            venue: self.venue.clone(),
            data_type: self.data_type.clone(),
            action: self.action,
            correlation_id: self.correlation_id,
            ts_init: self.ts_init,
        }
    }
}

/// Mathematical value of a data request.
pub struct DataRequestView {
    pub client_id: Seq<char>,
    pub venue: Seq<char>,
    pub data_type: DataTypeView,
    pub correlation_id: u64,
    pub ts_init: UnixNanos,
}

/// A request for data addressed to one client.
#[derive(Debug)]
pub struct DataRequest {
    pub client_id: ClientId,
    pub venue: Venue,
    pub data_type: DataType,
    pub correlation_id: u64,
    pub ts_init: UnixNanos,
}

impl View for DataRequest {
    type V = DataRequestView;

    open spec fn view(&self) -> DataRequestView {
        DataRequestView {
            client_id: self.client_id@,
            venue: self.venue@,
            data_type: self.data_type@,
            correlation_id: self.correlation_id,
            ts_init: self.ts_init,
        }
    }
}

impl Clone for DataRequest {
    fn clone(&self) -> (r: Self)
        ensures
            r@ == self@,
    {
        DataRequest {
            client_id: self.client_id.clone(),
            venue: self.venue.clone(),
            data_type: self.data_type.clone(),
            correlation_id: self.correlation_id,
            ts_init: self.ts_init,
        }
    }
}

/// Mathematical value of a response payload.
pub enum ResponsePayloadView {
    Instruments(Seq<<Instrument as View>::V>),
    Quotes(Seq<<QuoteTick as View>::V>),
    Trades(Seq<<TradeTick as View>::V>),
    Bars(Seq<<Bar as View>::V>),
    Custom(Seq<u8>),
}

/// Typed payload of a data response; unknown kinds arrive as raw bytes.
#[derive(Debug)]
pub enum ResponsePayload {
    Instruments(Vec<Instrument>),
    Quotes(Vec<QuoteTick>),
    Trades(Vec<TradeTick>),
    Bars(Vec<Bar>),
    Custom(Vec<u8>),
}

impl View for ResponsePayload {
    type V = ResponsePayloadView;

    open spec fn view(&self) -> ResponsePayloadView {
        match self {
            ResponsePayload::Instruments(v) => ResponsePayloadView::Instruments(
                v@.map(|i: int, x: Instrument| x@),
            ),
            ResponsePayload::Quotes(v) => ResponsePayloadView::Quotes(
                v@.map(|i: int, x: QuoteTick| x@),
            ),
            ResponsePayload::Trades(v) => ResponsePayloadView::Trades(
                v@.map(|i: int, x: TradeTick| x@),
            ),
            ResponsePayload::Bars(v) => ResponsePayloadView::Bars(v@.map(|i: int, x: Bar| x@)),
            ResponsePayload::Custom(v) => ResponsePayloadView::Custom(v@),
        }
    }
}

/// Mathematical value of a data response.
pub struct DataResponseView {
    pub correlation_id: u64,
    pub client_id: Seq<char>,
    pub venue: Seq<char>,
    pub data_type: DataTypeView,
    pub payload: ResponsePayloadView,
    pub ts_init: UnixNanos,
}

/// A client's answer to a data request, carrying a typed payload.
#[derive(Debug)]
pub struct DataResponse {
    pub correlation_id: u64,
    pub client_id: ClientId,
    pub venue: Venue,
    pub data_type: DataType,
    pub payload: ResponsePayload,
    pub ts_init: UnixNanos,
}

impl View for DataResponse {
    type V = DataResponseView;

    open spec fn view(&self) -> DataResponseView {
        DataResponseView {
            correlation_id: self.correlation_id,
            client_id: self.client_id@,
            venue: self.venue@,
            data_type: self.data_type@,
            payload: self.payload@,
            ts_init: self.ts_init,
        }
    }
}


impl Clone for ResponsePayload {
    fn clone(&self) -> (r: Self)
        ensures
            r@ == self@,
    {
        match self {
            ResponsePayload::Instruments(v) => {
                let mut copy: Vec<Instrument> = Vec::new();
                let mut i: usize = 0;
                while i < v.len()
                    invariant
                        i <= v.len(),
                        copy@.len() == i,
                        forall|k: int| 0 <= k < i ==> copy@[k]@ == v@[k]@,
                    decreases v.len() - i,
                {
                    copy.push(v[i].clone());
                    i = i + 1;
                }
                let r = ResponsePayload::Instruments(copy);
                proof {
                    assert(copy@.map(|i: int, x: Instrument| x@) =~= v@.map(
                        |i: int, x: Instrument| x@,
                    ));
                }
                r
            },
            ResponsePayload::Quotes(v) => {
                let mut copy: Vec<QuoteTick> = Vec::new();
                let mut i: usize = 0;
                while i < v.len()
                    invariant
                        i <= v.len(),
                        copy@.len() == i,
                        forall|k: int| 0 <= k < i ==> copy@[k]@ == v@[k]@,
                    decreases v.len() - i,
                {
                    copy.push(v[i].clone());
                    i = i + 1;
                }
                let r = ResponsePayload::Quotes(copy);
                proof {
                    assert(copy@.map(|i: int, x: QuoteTick| x@) =~= v@.map(
                        |i: int, x: QuoteTick| x@,
                    ));
                }
                r
            },
            ResponsePayload::Trades(v) => {
                let mut copy: Vec<TradeTick> = Vec::new();
                let mut i: usize = 0;
                while i < v.len()
                    invariant
                        i <= v.len(),
                        copy@.len() == i,
                        forall|k: int| 0 <= k < i ==> copy@[k]@ == v@[k]@,
                    decreases v.len() - i,
                {
                    copy.push(v[i].clone());
                    i = i + 1;
                }
                let r = ResponsePayload::Trades(copy);
                proof {
                    assert(copy@.map(|i: int, x: TradeTick| x@) =~= v@.map(
                        |i: int, x: TradeTick| x@,
                    ));
                }
                r
            },
            ResponsePayload::Bars(v) => {
                let mut copy: Vec<Bar> = Vec::new();
                let mut i: usize = 0;
                while i < v.len()
                    invariant
                        i <= v.len(),
                        copy@.len() == i,
                        forall|k: int| 0 <= k < i ==> copy@[k]@ == v@[k]@,
                    decreases v.len() - i,
                {
                    copy.push(v[i].clone());
                    i = i + 1;
                }
                let r = ResponsePayload::Bars(copy);
                proof {
                    assert(copy@.map(|i: int, x: Bar| x@) =~= v@.map(|i: int, x: Bar| x@));
                }
                r
            },
            ResponsePayload::Custom(v) => {
                let mut copy: Vec<u8> = Vec::new();
                let mut i: usize = 0;
                while i < v.len()
                    invariant
                        i <= v.len(),
                        copy@ == v@.take(i as int),
                    decreases v.len() - i,
                {
                    copy.push(v[i]);
                    proof {
                        assert(copy@ =~= v@.take(i as int + 1));
                    }
                    i = i + 1;
                }
                proof {
                    assert(v@.take(v@.len() as int) =~= v@);
                }
                ResponsePayload::Custom(copy)
            },
        }
    }
}

} // verus!
