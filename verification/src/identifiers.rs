//! Identifier types for clients, venues, instruments and bar types, together
//! with the closed enumerations that a bar specification is built from.
//!
//! All identifiers are opaque values with value equality; a `BarType` is the
//! triple of an instrument id, a bar specification and an aggregation source.

use vstd::prelude::*;

verus! {

/// Price basis that a bar or tick aggregation works on.
#[derive(Clone, Copy, PartialEq, Eq, Structural, Debug)]
pub enum PriceType {
    Bid,
    Ask,
    Mid,
    Last,
}

/// Aggregation rule that closes a bar.
#[derive(Clone, Copy, PartialEq, Eq, Structural, Debug)]
pub enum BarAggregation {
    Tick,
    Volume,
    Value,
    Millisecond,
    Second,
    Minute,
    Hour,
    Day,
    Week,
    Month,
}

/// Who computes the aggregate: the venue or this engine.
#[derive(Clone, Copy, PartialEq, Eq, Structural, Debug)]
pub enum AggregationSource {
    External,
    Internal,
}

/// Granularity of a managed order book.
#[derive(Clone, Copy, PartialEq, Eq, Structural, Debug)]
pub enum BookType {
    L1Mbp,
    L2Mbp,
    L3Mbo,
}

/// Kind of mutation a single order-book delta carries.
#[derive(Clone, Copy, PartialEq, Eq, Structural, Debug)]
pub enum BookAction {
    Add,
    Update,
    Delete,
    Clear,
}

/// Side of the book an order rests on.
#[derive(Clone, Copy, PartialEq, Eq, Structural, Debug)]
pub enum OrderSide {
    Buy,
    Sell,
}

/// Half-open convention for time-bar interval membership.
#[derive(Clone, Copy, PartialEq, Eq, Structural, Debug)]
pub enum BarIntervalType {
    LeftOpen,
    RightOpen,
    BothOpen,
}

/// Numeric code of a price type, as used by the language-binding layer.
pub open spec fn price_type_code(p: PriceType) -> u8 {
    match p {
        PriceType::Bid => 0,
        PriceType::Ask => 1,
        PriceType::Mid => 2,
        PriceType::Last => 3,
    }
}

/// Numeric code of an aggregation rule.
pub open spec fn bar_aggregation_code(a: BarAggregation) -> u8 {
    match a {
        BarAggregation::Tick => 0,
        BarAggregation::Volume => 1,
        BarAggregation::Value => 2,
        BarAggregation::Millisecond => 3,
        BarAggregation::Second => 4,
        BarAggregation::Minute => 5,
        BarAggregation::Hour => 6,
        BarAggregation::Day => 7,
        BarAggregation::Week => 8,
        BarAggregation::Month => 9,
    }
}

/// Numeric code of an aggregation source.
pub open spec fn aggregation_source_code(s: AggregationSource) -> u8 {
    match s {
        AggregationSource::External => 0,
        AggregationSource::Internal => 1,
    }
}

/// Decodes a price type from its numeric code; the inverse of
/// `price_type_code` on valid codes, `None` exactly on invalid ones.
pub fn price_type_from_u8(v: u8) -> (r: Option<PriceType>)
    ensures
        r matches Some(p) ==> price_type_code(p) == v,
        r is None <==> v >= 4,
{
    match v {
        0u8 => Some(PriceType::Bid),
        1u8 => Some(PriceType::Ask),
        2u8 => Some(PriceType::Mid),
        3u8 => Some(PriceType::Last),
        _ => None,
    }
}

/// Decodes an aggregation rule from its numeric code.
pub fn bar_aggregation_from_u8(v: u8) -> (r: Option<BarAggregation>)
    ensures
        r matches Some(a) ==> bar_aggregation_code(a) == v,
        r is None <==> v >= 10,
{
    match v {
        0u8 => Some(BarAggregation::Tick),
        1u8 => Some(BarAggregation::Volume),
        2u8 => Some(BarAggregation::Value),
        3u8 => Some(BarAggregation::Millisecond),
        4u8 => Some(BarAggregation::Second),
        5u8 => Some(BarAggregation::Minute),
        6u8 => Some(BarAggregation::Hour),
        7u8 => Some(BarAggregation::Day),
        8u8 => Some(BarAggregation::Week),
        9u8 => Some(BarAggregation::Month),
        _ => None,
    }
}

/// Decodes an aggregation source from its numeric code.
pub fn aggregation_source_from_u8(v: u8) -> (r: Option<AggregationSource>)
    ensures
        r matches Some(s) ==> aggregation_source_code(s) == v,
        r is None <==> v >= 2,
{
    match v {
        0u8 => Some(AggregationSource::External),
        1u8 => Some(AggregationSource::Internal),
        _ => None,
    }
}

/// Identifier of a registered data client.
#[derive(Debug)]
pub struct ClientId {
    pub value: String,
}

impl View for ClientId {
    type V = Seq<char>;

    open spec fn view(&self) -> Seq<char> {
        self.value@
    }
}

impl ClientId {
    /// Wraps a name as a client identifier.
    pub fn new(value: String) -> (r: Self)
        ensures
            r@ == value@,
    {
        ClientId { value }
    }

    /// The identifier's textual form.
    pub fn as_str(&self) -> (r: &str)
        ensures
            r@ == self@,
    {
        self.value.as_str()
    }
}

impl Clone for ClientId {
    fn clone(&self) -> (r: Self)
        ensures
            r@ == self@,
    {
        ClientId { value: self.value.clone() }
    }
}

impl PartialEq for ClientId {
    fn eq(&self, other: &Self) -> (r: bool) {
        self.value == other.value
    }
}

impl vstd::std_specs::cmp::PartialEqSpecImpl for ClientId {
    open spec fn obeys_eq_spec() -> bool {
        true
    }

    open spec fn eq_spec(&self, other: &Self) -> bool {
        self@ == other@
    }
}

/// Identifier of a trading venue.
#[derive(Debug)]
pub struct Venue {
    pub value: String,
}

impl View for Venue {
    type V = Seq<char>;

    open spec fn view(&self) -> Seq<char> {
        self.value@
    }
}

impl Venue {
    /// Wraps a name as a venue identifier.
    pub fn new(value: String) -> (r: Self)
        ensures
            r@ == value@,
    {
        Venue { value }
    }

    /// The identifier's textual form.
    pub fn as_str(&self) -> (r: &str)
        ensures
            r@ == self@,
    {
        self.value.as_str()
    }
}

impl Clone for Venue {
    fn clone(&self) -> (r: Self)
        ensures
            r@ == self@,
    {
        Venue { value: self.value.clone() }
    }
}

impl PartialEq for Venue {
    fn eq(&self, other: &Self) -> (r: bool) {
        self.value == other.value
    }
}

impl vstd::std_specs::cmp::PartialEqSpecImpl for Venue {
    open spec fn obeys_eq_spec() -> bool {
        true
    }

    open spec fn eq_spec(&self, other: &Self) -> bool {
        self@ == other@
    }
}

/// Identifier of a tradeable instrument.
#[derive(Debug)]
pub struct InstrumentId {
    pub value: String,
}

impl View for InstrumentId {
    type V = Seq<char>;

    open spec fn view(&self) -> Seq<char> {
        self.value@
    }
}

impl InstrumentId {
    /// Wraps a name as an instrument identifier.
    pub fn new(value: String) -> (r: Self)
        ensures
            r@ == value@,
    {
        InstrumentId { value }
    }

    /// The identifier's textual form.
    pub fn as_str(&self) -> (r: &str)
        ensures
            r@ == self@,
    {
        self.value.as_str()
    }
}

impl Clone for InstrumentId {
    fn clone(&self) -> (r: Self)
        ensures
            r@ == self@,
    {
        InstrumentId { value: self.value.clone() }
    }
}

impl PartialEq for InstrumentId {
    fn eq(&self, other: &Self) -> (r: bool) {
        self.value == other.value
    }
}

impl vstd::std_specs::cmp::PartialEqSpecImpl for InstrumentId {
    open spec fn obeys_eq_spec() -> bool {
        true
    }

    open spec fn eq_spec(&self, other: &Self) -> bool {
        self@ == other@
    }
}

/// How many price points of which kind make one bar.
#[derive(Clone, Copy, PartialEq, Eq, Structural, Debug)]
pub struct BarSpecification {
    pub step: u64,
    pub aggregation: BarAggregation,
    pub price_type: PriceType,
}

/// Builds a bar specification from a step and the numeric enum codes.
///
/// Valid codes are required: the engine rejects out-of-range codes before
/// this point rather than building a specification from them.
pub fn bar_specification_new(step: u64, aggregation: u8, price_type: u8) -> (r: BarSpecification)
    requires
        aggregation < 10,
        price_type < 4,
    ensures
        r.step == step,
        bar_aggregation_code(r.aggregation) == aggregation,
        price_type_code(r.price_type) == price_type,
{
    let agg = bar_aggregation_from_u8(aggregation);
    let pt = price_type_from_u8(price_type);
    BarSpecification { step, aggregation: agg.unwrap(), price_type: pt.unwrap() }
}

/// Strict lexicographic order on (step, aggregation code, price-type code).
pub open spec fn spec_bar_spec_lt(a: BarSpecification, b: BarSpecification) -> bool {
    a.step < b.step || (a.step == b.step && (bar_aggregation_code(a.aggregation)
        < bar_aggregation_code(b.aggregation) || (a.aggregation == b.aggregation
        && price_type_code(a.price_type) < price_type_code(b.price_type))))
}

/// Whether two bar specifications hold the same fields.
pub fn bar_specification_eq(lhs: &BarSpecification, rhs: &BarSpecification) -> (r: bool)
    ensures
        r == (lhs == rhs),
{
    lhs.step == rhs.step && lhs.aggregation == rhs.aggregation && lhs.price_type == rhs.price_type
}

/// Strict order on bar specifications, lexicographic by field.
pub fn bar_specification_lt(lhs: &BarSpecification, rhs: &BarSpecification) -> (r: bool)
    ensures
        r == spec_bar_spec_lt(*lhs, *rhs),
{
    if lhs.step != rhs.step {
        lhs.step < rhs.step
    } else {
        let la = bar_aggregation_to_u8(lhs.aggregation);
        let ra = bar_aggregation_to_u8(rhs.aggregation);
        if la != ra {
            la < ra
        } else {
            price_type_to_u8(lhs.price_type) < price_type_to_u8(rhs.price_type)
        }
    }
}

/// Non-strict counterpart of `bar_specification_lt`.
pub fn bar_specification_le(lhs: &BarSpecification, rhs: &BarSpecification) -> (r: bool)
    ensures
        r == (spec_bar_spec_lt(*lhs, *rhs) || lhs == rhs),
{
    bar_specification_lt(lhs, rhs) || bar_specification_eq(lhs, rhs)
}

/// Strict reverse order on bar specifications.
pub fn bar_specification_gt(lhs: &BarSpecification, rhs: &BarSpecification) -> (r: bool)
    ensures
        r == spec_bar_spec_lt(*rhs, *lhs),
{
    bar_specification_lt(rhs, lhs)
}

/// Non-strict reverse order on bar specifications.
pub fn bar_specification_ge(lhs: &BarSpecification, rhs: &BarSpecification) -> (r: bool)
    ensures
        r == (spec_bar_spec_lt(*rhs, *lhs) || lhs == rhs),
{
    bar_specification_lt(rhs, lhs) || bar_specification_eq(lhs, rhs)
}

/// Encodes a price type as its numeric code.
pub fn price_type_to_u8(p: PriceType) -> (r: u8)
    ensures
        r == price_type_code(p),
{
    match p {
        PriceType::Bid => 0,
        PriceType::Ask => 1,
        PriceType::Mid => 2,
        PriceType::Last => 3,
    }
}

/// Encodes an aggregation rule as its numeric code.
pub fn bar_aggregation_to_u8(a: BarAggregation) -> (r: u8)
    ensures
        r == bar_aggregation_code(a),
{
    match a {
        BarAggregation::Tick => 0,
        BarAggregation::Volume => 1,
        BarAggregation::Value => 2,
        BarAggregation::Millisecond => 3,
        BarAggregation::Second => 4,
        BarAggregation::Minute => 5,
        BarAggregation::Hour => 6,
        BarAggregation::Day => 7,
        BarAggregation::Week => 8,
        BarAggregation::Month => 9,
    }
}

/// Encodes an aggregation source as its numeric code.
pub fn aggregation_source_to_u8(s: AggregationSource) -> (r: u8)
    ensures
        r == aggregation_source_code(s),
{
    match s {
        AggregationSource::External => 0,
        AggregationSource::Internal => 1,
    }
}

/// Mathematical value of a bar type: the instrument's name with the
/// specification and source it aggregates under.
pub struct BarTypeView {
    pub instrument_id: Seq<char>,
    pub spec: BarSpecification,
    pub aggregation_source: AggregationSource,
}

/// Key of a bar stream: instrument, specification, aggregation source.
#[derive(Debug)]
pub struct BarType {
    pub instrument_id: InstrumentId,
    pub spec: BarSpecification,
    pub aggregation_source: AggregationSource,
}

impl View for BarType {
    type V = BarTypeView;

    open spec fn view(&self) -> BarTypeView {
        BarTypeView {
            instrument_id: self.instrument_id@,
            spec: self.spec,
            aggregation_source: self.aggregation_source,
        }
    }
}

/// Builds a bar type from an instrument id, a specification and the numeric
/// code of an aggregation source; valid codes are required as in
/// `bar_specification_new`.
pub fn bar_type_new(
    instrument_id: InstrumentId,
    spec: BarSpecification,
    aggregation_source: u8,
) -> (r: BarType)
    requires
        aggregation_source < 2,
    ensures
        r@.instrument_id == instrument_id@,
        r@.spec == spec,
        aggregation_source_code(r@.aggregation_source) == aggregation_source,
{
    let source = aggregation_source_from_u8(aggregation_source);
    BarType { instrument_id, spec, aggregation_source: source.unwrap() }
}

impl Clone for BarType {
    fn clone(&self) -> (r: Self)
        ensures
            r@ == self@,
    {
        BarType {
            instrument_id: self.instrument_id.clone(),
            spec: self.spec,
            aggregation_source: self.aggregation_source,
        }
    }
}

impl PartialEq for BarType {
    fn eq(&self, other: &Self) -> (r: bool) {
        self.instrument_id == other.instrument_id && self.spec == other.spec
            && self.aggregation_source == other.aggregation_source
    }
}

impl vstd::std_specs::cmp::PartialEqSpecImpl for BarType {
    open spec fn obeys_eq_spec() -> bool {
        true
    }

    open spec fn eq_spec(&self, other: &Self) -> bool {
        self@ == other@
    }
}

/// Whether two bar types name the same bar stream.
pub fn bar_type_eq(lhs: &BarType, rhs: &BarType) -> (r: bool)
    ensures
        r == (lhs@ == rhs@),
{
    lhs == rhs
}


/// Strict lexicographic order on byte sequences.
pub open spec fn spec_bytes_lt(a: Seq<u8>, b: Seq<u8>) -> bool
    decreases a.len(),
{
    if b.len() == 0 {
        false
    } else if a.len() == 0 {
        true
    } else if a[0] != b[0] {
        a[0] < b[0]
    } else {
        spec_bytes_lt(a.skip(1), b.skip(1))
    }
}

/// Helper: with a common prefix of length `i`, the byte order is decided
/// at position `i` — by the first differing byte, or by length.
proof fn lemma_bytes_lt_at(a: Seq<u8>, b: Seq<u8>, i: int)
    requires
        0 <= i <= a.len(),
        0 <= i <= b.len(),
        forall|k: int| 0 <= k < i ==> a[k] == b[k],
    ensures
        spec_bytes_lt(a, b) == if i < a.len() && i < b.len() && a[i] != b[i] {
            a[i] < b[i]
        } else if i == a.len() || i == b.len() {
            a.len() < b.len()
        } else {
            spec_bytes_lt(a.skip(i), b.skip(i))
        },
    decreases i,
{
    if i > 0 {
        assert(a[0] == b[0]);
        assert(forall|k: int| 0 <= k < a.skip(1).len() ==> a.skip(1)[k] == a[k + 1]);
        assert(forall|k: int| 0 <= k < b.skip(1).len() ==> b.skip(1)[k] == b[k + 1]);
        lemma_bytes_lt_at(a.skip(1), b.skip(1), i - 1);
        if !(i < a.len() && i < b.len() && a[i] != b[i]) && i < a.len() && i < b.len() {
            assert(a.skip(1).skip(i - 1) =~= a.skip(i));
            assert(b.skip(1).skip(i - 1) =~= b.skip(i));
        }
    } else {
        if 0 < a.len() && 0 < b.len() && a[0] == b[0] {
            assert(a.skip(0) =~= a);
            assert(b.skip(0) =~= b);
        }
    }
}

/// Strict order on bar types: by the instrument name's UTF-8 bytes, then
/// by specification, then by aggregation source code.
pub open spec fn spec_bar_type_lt(a: BarTypeView, b: BarTypeView) -> bool {
    let ab = vstd::utf8::encode_utf8(a.instrument_id);
    let bb = vstd::utf8::encode_utf8(b.instrument_id);
    ||| spec_bytes_lt(ab, bb)
    ||| (ab == bb && (spec_bar_spec_lt(a.spec, b.spec) || (a.spec == b.spec
        && aggregation_source_code(a.aggregation_source) < aggregation_source_code(
        b.aggregation_source,
    ))))
}

/// Strict order on bar types, lexicographic by field.
pub fn bar_type_lt(lhs: &BarType, rhs: &BarType) -> (r: bool)
    ensures
        r == spec_bar_type_lt(lhs@, rhs@),
{
    let av = lhs.instrument_id.as_str().as_bytes_vec();
    let bv = rhs.instrument_id.as_str().as_bytes_vec();
    let ghost ab = vstd::utf8::encode_utf8(lhs@.instrument_id);
    let ghost bb = vstd::utf8::encode_utf8(rhs@.instrument_id);
    let mut i: usize = 0;
    while i < av.len() && i < bv.len()
        invariant
            i <= av.len(),
            i <= bv.len(),
            av@ == ab,
            bv@ == bb,
            ab == vstd::utf8::encode_utf8(lhs@.instrument_id),
            bb == vstd::utf8::encode_utf8(rhs@.instrument_id),
            forall|k: int| 0 <= k < i ==> ab[k] == bb[k],
        decreases av.len() - i,
    {
        if av[i] != bv[i] {
            proof {
                lemma_bytes_lt_at(ab, bb, i as int);
                assert(ab != bb);
            }
            return av[i] < bv[i];
        }
        i = i + 1;
    }
    proof {
        lemma_bytes_lt_at(ab, bb, i as int);
    }
    if av.len() == bv.len() {
        proof {
            assert(ab =~= bb);
        }
        if bar_specification_lt(&lhs.spec, &rhs.spec) {
            return true;
        }
        if !bar_specification_eq(&lhs.spec, &rhs.spec) {
            return false;
        }
        aggregation_source_to_u8(lhs.aggregation_source) < aggregation_source_to_u8(
            rhs.aggregation_source,
        )
    } else {
        proof {
            assert(ab != bb);
        }
        av.len() < bv.len()
    }
}

/// Non-strict counterpart of `bar_type_lt`.
pub fn bar_type_le(lhs: &BarType, rhs: &BarType) -> (r: bool)
    ensures
        r == !spec_bar_type_lt(rhs@, lhs@),
{
    !bar_type_lt(rhs, lhs)
}

/// Strict reverse order on bar types.
pub fn bar_type_gt(lhs: &BarType, rhs: &BarType) -> (r: bool)
    ensures
        r == spec_bar_type_lt(rhs@, lhs@),
{
    bar_type_lt(rhs, lhs)
}

/// Non-strict reverse order on bar types.
pub fn bar_type_ge(lhs: &BarType, rhs: &BarType) -> (r: bool)
    ensures
        r == !spec_bar_type_lt(lhs@, rhs@),
{
    !bar_type_lt(lhs, rhs)
}

} // verus!
