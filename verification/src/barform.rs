//! The textual form of a bar type:
//! `{instrument}-{step}-{aggregation}-{price type}-{source}`.
//!
//! The formatter is verified against `bar_type_repr`, the mathematical
//! description of that form. The parser is exact on well-formed bar types
//! (ASCII instrument names without a dash, as `wf_bar_type` states): a
//! successful reading re-serializes to the input, and a failed reading
//! means no well-formed bar type has the input as its canonical form.

use vstd::prelude::*;

use vstd::utf8::is_ascii_chars;

use crate::identifiers::{
    AggregationSource, BarAggregation, BarSpecification, BarType, BarTypeView, InstrumentId,
    PriceType,
};

verus! {

/// The decimal digit character for one digit value.
pub open spec fn spec_digit_char(d: u8) -> char {
    if d == 0 {
        '0'
    } else if d == 1 {
        '1'
    } else if d == 2 {
        '2'
    } else if d == 3 {
        '3'
    } else if d == 4 {
        '4'
    } else if d == 5 {
        '5'
    } else if d == 6 {
        '6'
    } else if d == 7 {
        '7'
    } else if d == 8 {
        '8'
    } else {
        '9'
    }
}

/// Helper: a digit character's code point is 48 plus its value.
proof fn lemma_digit_char_props(d: u8)
    requires
        d < 10,
    ensures
        spec_digit_char(d) as u32 == 48 + d,
        spec_digit_char(d) != '-',
        '\0' <= spec_digit_char(d) <= '\u{7f}',
{
}

/// The canonical decimal form of a number: no sign, no leading zeros.
pub open spec fn spec_dec(n: u64) -> Seq<char>
    decreases n,
{
    if n < 10 {
        seq![spec_digit_char(n as u8)]
    } else {
        spec_dec(n / 10) + seq![spec_digit_char((n % 10) as u8)]
    }
}

/// Numeric value of a digit string, most significant digit first.
pub open spec fn spec_digits_val(s: Seq<char>) -> int
    decreases s.len(),
{
    if s.len() == 0 {
        0
    } else {
        spec_digits_val(s.drop_last()) * 10 + (s.last() as u32 - 48)
    }
}

/// Helper: the canonical decimal form is nonempty, all digits, and its
/// numeric value is the number it was built from.
proof fn lemma_dec_props(n: u64)
    ensures
        spec_dec(n).len() >= 1,
        forall|k: int|
            0 <= k < spec_dec(n).len() ==> 48 <= #[trigger] spec_dec(n)[k] as u32 <= 57
                && spec_dec(n)[k] != '-' && '\0' <= spec_dec(n)[k] <= '\u{7f}',
        spec_digits_val(spec_dec(n)) == n as int,
    decreases n,
{
    if n < 10 {
        lemma_digit_char_props(n as u8);
        let s = spec_dec(n);
        assert(s.drop_last() =~= Seq::<char>::empty());
        assert(s.last() == spec_digit_char(n as u8));
        assert(spec_digits_val(Seq::<char>::empty()) == 0);
        assert(spec_digits_val(s) == spec_digits_val(s.drop_last()) * 10 + (s.last() as u32
            - 48));
        assert(spec_digits_val(s) == n as int);
    } else {
        lemma_dec_props(n / 10);
        lemma_digit_char_props((n % 10) as u8);
        let rest = spec_dec(n / 10);
        let s = spec_dec(n);
        assert(s.drop_last() =~= rest);
        assert(s.last() == spec_digit_char((n % 10) as u8));
        assert(forall|k: int| 0 <= k < rest.len() ==> s[k] == rest[k]);
        assert(spec_digits_val(s) == (n / 10) as int * 10 + (n % 10) as int);
        assert((n / 10) as int * 10 + (n % 10) as int == n as int) by (nonlinear_arith);
    }
}

/// Helper: a digit string's value is never negative.
proof fn lemma_digits_val_nonneg(s: Seq<char>)
    requires
        forall|k: int| 0 <= k < s.len() ==> 48 <= #[trigger] s[k] as u32 <= 57,
    ensures
        spec_digits_val(s) >= 0,
    decreases s.len(),
{
    if s.len() > 0 {
        assert(forall|k: int|
            0 <= k < s.drop_last().len() ==> 48 <= #[trigger] s.drop_last()[k] as u32 <= 57);
        lemma_digits_val_nonneg(s.drop_last());
    }
}

/// Helper: a prefix of a digit string is worth at most the whole string.
proof fn lemma_digits_prefix_le(s: Seq<char>, i: int)
    requires
        forall|k: int| 0 <= k < s.len() ==> 48 <= #[trigger] s[k] as u32 <= 57,
        0 <= i <= s.len(),
    ensures
        0 <= spec_digits_val(s.take(i)) <= spec_digits_val(s),
    decreases s.len() - i,
{
    assert(forall|k: int| 0 <= k < s.take(i).len() ==> 48 <= #[trigger] s.take(i)[k] as u32 <= 57);
    lemma_digits_val_nonneg(s.take(i));
    if i == s.len() {
        assert(s.take(i) =~= s);
    } else {
        assert(s.take(i + 1).drop_last() =~= s.take(i));
        assert(s.take(i + 1).last() == s[i]);
        assert(spec_digits_val(s.take(i + 1)) == spec_digits_val(s.take(i)) * 10 + (s[i] as u32
            - 48));
        assert(spec_digits_val(s.take(i)) <= spec_digits_val(s.take(i)) * 10) by (nonlinear_arith)
            requires spec_digits_val(s.take(i)) >= 0;
        lemma_digits_prefix_le(s, i + 1);
    }
}

/// One decimal digit as a string slice.
fn digit_str(d: u8) -> (r: &'static str)
    requires
        d < 10,
    ensures
        r@ == seq![spec_digit_char(d)],
{
    let r: &'static str = match d {
        0u8 => "0",
        1u8 => "1",
        2u8 => "2",
        3u8 => "3",
        4u8 => "4",
        5u8 => "5",
        6u8 => "6",
        7u8 => "7",
        8u8 => "8",
        _ => "9",
    };
    proof {
        reveal_strlit("0");
        reveal_strlit("1");
        reveal_strlit("2");
        reveal_strlit("3");
        reveal_strlit("4");
        reveal_strlit("5");
        reveal_strlit("6");
        reveal_strlit("7");
        reveal_strlit("8");
        reveal_strlit("9");
        assert(r@ =~= seq![spec_digit_char(d)]);
    }
    r
}

/// Formats a number in canonical decimal.
pub fn u64_dec_string(n: u64) -> (r: String)
    ensures
        r@ == spec_dec(n),
    decreases n,
{
    if n < 10 {
        String::from_str(digit_str(n as u8))
    } else {
        let mut s = u64_dec_string(n / 10);
        s.append(digit_str((n % 10) as u8));
        s
    }
}

/// Token naming an aggregation rule.
pub open spec fn spec_aggregation_token(a: BarAggregation) -> Seq<char> {
    match a {
        BarAggregation::Tick => "TICK"@,
        BarAggregation::Volume => "VOLUME"@,
        BarAggregation::Value => "VALUE"@,
        BarAggregation::Millisecond => "MILLISECOND"@,
        BarAggregation::Second => "SECOND"@,
        BarAggregation::Minute => "MINUTE"@,
        BarAggregation::Hour => "HOUR"@,
        BarAggregation::Day => "DAY"@,
        BarAggregation::Week => "WEEK"@,
        BarAggregation::Month => "MONTH"@,
    }
}

/// Token naming a price type.
pub open spec fn spec_price_type_token(p: PriceType) -> Seq<char> {
    match p {
        PriceType::Bid => "BID"@,
        PriceType::Ask => "ASK"@,
        PriceType::Mid => "MID"@,
        PriceType::Last => "LAST"@,
    }
}

/// Token naming an aggregation source.
pub open spec fn spec_source_token(s: AggregationSource) -> Seq<char> {
    match s {
        AggregationSource::External => "EXTERNAL"@,
        AggregationSource::Internal => "INTERNAL"@,
    }
}

/// Helper: aggregation tokens are nonempty, ASCII, and hold no dash.
proof fn lemma_agg_token_chars(a: BarAggregation)
    ensures
        spec_aggregation_token(a).len() >= 1,
        forall|k: int|
            0 <= k < spec_aggregation_token(a).len() ==> #[trigger] spec_aggregation_token(a)[k]
                != '-' && '\0' <= spec_aggregation_token(a)[k] <= '\u{7f}',
{
    reveal_strlit("TICK");
    reveal_strlit("VOLUME");
    reveal_strlit("VALUE");
    reveal_strlit("MILLISECOND");
    reveal_strlit("SECOND");
    reveal_strlit("MINUTE");
    reveal_strlit("HOUR");
    reveal_strlit("DAY");
    reveal_strlit("WEEK");
    reveal_strlit("MONTH");
}

/// Helper: price-type tokens are nonempty, ASCII, and hold no dash.
proof fn lemma_pt_token_chars(p: PriceType)
    ensures
        spec_price_type_token(p).len() >= 1,
        forall|k: int|
            0 <= k < spec_price_type_token(p).len() ==> #[trigger] spec_price_type_token(p)[k]
                != '-' && '\0' <= spec_price_type_token(p)[k] <= '\u{7f}',
{
    reveal_strlit("BID");
    reveal_strlit("ASK");
    reveal_strlit("MID");
    reveal_strlit("LAST");
}

/// Helper: source tokens are nonempty, ASCII, and hold no dash.
proof fn lemma_src_token_chars(s: AggregationSource)
    ensures
        spec_source_token(s).len() >= 1,
        forall|k: int|
            0 <= k < spec_source_token(s).len() ==> #[trigger] spec_source_token(s)[k] != '-'
                && '\0' <= spec_source_token(s)[k] <= '\u{7f}',
{
    reveal_strlit("EXTERNAL");
    reveal_strlit("INTERNAL");
}

/// The aggregation token as a string slice.
fn aggregation_token(a: BarAggregation) -> (r: &'static str)
    ensures
        r@ == spec_aggregation_token(a),
{
    match a {
        BarAggregation::Tick => "TICK",
        BarAggregation::Volume => "VOLUME",
        BarAggregation::Value => "VALUE",
        BarAggregation::Millisecond => "MILLISECOND",
        BarAggregation::Second => "SECOND",
        BarAggregation::Minute => "MINUTE",
        BarAggregation::Hour => "HOUR",
        BarAggregation::Day => "DAY",
        BarAggregation::Week => "WEEK",
        BarAggregation::Month => "MONTH",
    }
}

/// The price-type token as a string slice.
fn price_type_token(p: PriceType) -> (r: &'static str)
    ensures
        r@ == spec_price_type_token(p),
{
    match p {
        PriceType::Bid => "BID",
        PriceType::Ask => "ASK",
        PriceType::Mid => "MID",
        PriceType::Last => "LAST",
    }
}

/// The source token as a string slice.
fn source_token(s: AggregationSource) -> (r: &'static str)
    ensures
        r@ == spec_source_token(s),
{
    match s {
        AggregationSource::External => "EXTERNAL",
        AggregationSource::Internal => "INTERNAL",
    }
}

/// The canonical textual form of a bar type.
pub open spec fn bar_type_repr(bt: BarTypeView) -> Seq<char> {
    bt.instrument_id + "-"@ + spec_dec(bt.spec.step) + "-"@ + spec_aggregation_token(
        bt.spec.aggregation,
    ) + "-"@ + spec_price_type_token(bt.spec.price_type) + "-"@ + spec_source_token(
        bt.aggregation_source,
    )
}

/// A bar type whose canonical form is exact: its instrument name is
/// nonempty ASCII and holds no dash, so the four dashes of the form are
/// exactly its separators.
pub open spec fn wf_bar_type(bt: BarTypeView) -> bool {
    &&& bt.instrument_id.len() > 0
    &&& is_ascii_chars(bt.instrument_id)
    &&& forall|k: int| 0 <= k < bt.instrument_id.len() ==> bt.instrument_id[k] != '-'
}

/// Helper: in the canonical form of a well-formed bar type, the dashes
/// are exactly the four separators, and the pieces between them are the
/// components; the whole form is ASCII.
proof fn lemma_repr_structure(bt: BarTypeView)
    requires
        wf_bar_type(bt),
    ensures
        ({
            let s = bar_type_repr(bt);
            let p1 = bt.instrument_id.len() as int;
            let p2 = p1 + 1 + spec_dec(bt.spec.step).len();
            let p3 = p2 + 1 + spec_aggregation_token(bt.spec.aggregation).len();
            let p4 = p3 + 1 + spec_price_type_token(bt.spec.price_type).len();
            &&& s.len() == p4 + 1 + spec_source_token(bt.aggregation_source).len()
            &&& 1 <= p1 < p2 < p3 < p4 < s.len()
            &&& forall|i: int|
                0 <= i < s.len() ==> (#[trigger] s[i] == '-' <==> i == p1 || i == p2 || i == p3
                    || i == p4)
            &&& s.subrange(0, p1) == bt.instrument_id
            &&& s.subrange(p1 + 1, p2) == spec_dec(bt.spec.step)
            &&& s.subrange(p2 + 1, p3) == spec_aggregation_token(bt.spec.aggregation)
            &&& s.subrange(p3 + 1, p4) == spec_price_type_token(bt.spec.price_type)
            &&& s.subrange(p4 + 1, s.len() as int) == spec_source_token(bt.aggregation_source)
            &&& is_ascii_chars(s)
        }),
{
    lemma_dec_props(bt.spec.step);
    lemma_agg_token_chars(bt.spec.aggregation);
    lemma_pt_token_chars(bt.spec.price_type);
    lemma_src_token_chars(bt.aggregation_source);
    reveal_strlit("-");
    let iid = bt.instrument_id;
    let f2 = spec_dec(bt.spec.step);
    let f3 = spec_aggregation_token(bt.spec.aggregation);
    let f4 = spec_price_type_token(bt.spec.price_type);
    let f5 = spec_source_token(bt.aggregation_source);
    let dash = "-"@;
    assert(dash.len() == 1);
    assert(dash[0] == '-');
    let s = bar_type_repr(bt);
    let p1 = iid.len() as int;
    let p2 = p1 + 1 + f2.len();
    let p3 = p2 + 1 + f3.len();
    let p4 = p3 + 1 + f4.len();
    assert forall|i: int| 0 <= i < p1 implies s[i] == iid[i] by {}
    assert(s[p1] == '-');
    assert forall|i: int| p1 + 1 <= i < p2 implies s[i] == f2[i - (p1 + 1)] by {}
    assert(s[p2] == '-');
    assert forall|i: int| p2 + 1 <= i < p3 implies s[i] == f3[i - (p2 + 1)] by {}
    assert(s[p3] == '-');
    assert forall|i: int| p3 + 1 <= i < p4 implies s[i] == f4[i - (p3 + 1)] by {}
    assert(s[p4] == '-');
    assert forall|i: int| p4 + 1 <= i < s.len() implies s[i] == f5[i - (p4 + 1)] by {}
    assert(s.subrange(0, p1) =~= iid);
    assert(s.subrange(p1 + 1, p2) =~= f2);
    assert(s.subrange(p2 + 1, p3) =~= f3);
    assert(s.subrange(p3 + 1, p4) =~= f4);
    assert(s.subrange(p4 + 1, s.len() as int) =~= f5);
    assert forall|i: int|
        0 <= i < s.len() implies (#[trigger] s[i] == '-' <==> i == p1 || i == p2 || i == p3 || i
        == p4) by {
        if i < p1 {
            assert(s[i] == iid[i]);
            assert(iid[i] != '-');
        } else if p1 + 1 <= i < p2 {
            assert(s[i] == f2[i - (p1 + 1)]);
        } else if p2 + 1 <= i < p3 {
            assert(s[i] == f3[i - (p2 + 1)]);
        } else if p3 + 1 <= i < p4 {
            assert(s[i] == f4[i - (p3 + 1)]);
        } else if p4 + 1 <= i < s.len() {
            assert(s[i] == f5[i - (p4 + 1)]);
        }
    };
    assert forall|i: int| 0 <= i < s.len() implies '\0' <= #[trigger] s[i] <= '\u{7f}' by {
        if i < p1 {
            assert(s[i] == iid[i]);
            assert('\0' <= iid[i] <= '\u{7f}');
        } else if i == p1 || i == p2 || i == p3 || i == p4 {
            assert(s[i] == '-');
        } else if p1 + 1 <= i < p2 {
            assert(s[i] == f2[i - (p1 + 1)]);
        } else if p2 + 1 <= i < p3 {
            assert(s[i] == f3[i - (p2 + 1)]);
        } else if p3 + 1 <= i < p4 {
            assert(s[i] == f4[i - (p3 + 1)]);
        } else {
            assert(s[i] == f5[i - (p4 + 1)]);
        }
    };
}

/// Formats a bar type in its canonical textual form.
pub fn bar_type_to_string(bt: &BarType) -> (r: String)
    ensures
        r@ == bar_type_repr(bt@),
{
    let mut out = String::from_str(bt.instrument_id.as_str());
    out.append("-");
    let step = u64_dec_string(bt.spec.step);
    out.append(step.as_str());
    out.append("-");
    out.append(aggregation_token(bt.spec.aggregation));
    out.append("-");
    out.append(price_type_token(bt.spec.price_type));
    out.append("-");
    out.append(source_token(bt.aggregation_source));
    out
}

/// Reads one aggregation token; any input that is some rule's token is
/// accepted as a rule with that token.
fn parse_aggregation(tok: &String) -> (r: Option<BarAggregation>)
    ensures
        (exists|a: BarAggregation| spec_aggregation_token(a) == tok@) ==> (r matches Some(b)
            && spec_aggregation_token(b) == tok@),
{
    if *tok == String::from_str("TICK") {
        Some(BarAggregation::Tick)
    } else if *tok == String::from_str("VOLUME") {
        Some(BarAggregation::Volume)
    } else if *tok == String::from_str("VALUE") {
        Some(BarAggregation::Value)
    } else if *tok == String::from_str("MILLISECOND") {
        Some(BarAggregation::Millisecond)
    } else if *tok == String::from_str("SECOND") {
        Some(BarAggregation::Second)
    } else if *tok == String::from_str("MINUTE") {
        Some(BarAggregation::Minute)
    } else if *tok == String::from_str("HOUR") {
        Some(BarAggregation::Hour)
    } else if *tok == String::from_str("DAY") {
        Some(BarAggregation::Day)
    } else if *tok == String::from_str("WEEK") {
        Some(BarAggregation::Week)
    } else if *tok == String::from_str("MONTH") {
        Some(BarAggregation::Month)
    } else {
        proof {
            assert forall|a: BarAggregation| spec_aggregation_token(a) != tok@ by {
                match a {
                    BarAggregation::Tick => {},
                    BarAggregation::Volume => {},
                    BarAggregation::Value => {},
                    BarAggregation::Millisecond => {},
                    BarAggregation::Second => {},
                    BarAggregation::Minute => {},
                    BarAggregation::Hour => {},
                    BarAggregation::Day => {},
                    BarAggregation::Week => {},
                    BarAggregation::Month => {},
                }
            };
        }
        None
    }
}

/// Reads one price-type token; any input that is some type's token is
/// accepted as a type with that token.
fn parse_price_type(tok: &String) -> (r: Option<PriceType>)
    ensures
        (exists|p: PriceType| spec_price_type_token(p) == tok@) ==> (r matches Some(b)
            && spec_price_type_token(b) == tok@),
{
    if *tok == String::from_str("BID") {
        Some(PriceType::Bid)
    } else if *tok == String::from_str("ASK") {
        Some(PriceType::Ask)
    } else if *tok == String::from_str("MID") {
        Some(PriceType::Mid)
    } else if *tok == String::from_str("LAST") {
        Some(PriceType::Last)
    } else {
        proof {
            assert forall|p: PriceType| spec_price_type_token(p) != tok@ by {
                match p {
                    PriceType::Bid => {},
                    PriceType::Ask => {},
                    PriceType::Mid => {},
                    PriceType::Last => {},
                }
            };
        }
        None
    }
}

/// Reads one source token; any input that is some source's token is
/// accepted as a source with that token.
fn parse_source(tok: &String) -> (r: Option<AggregationSource>)
    ensures
        (exists|s: AggregationSource| spec_source_token(s) == tok@) ==> (r matches Some(b)
            && spec_source_token(b) == tok@),
{
    if *tok == String::from_str("EXTERNAL") {
        Some(AggregationSource::External)
    } else if *tok == String::from_str("INTERNAL") {
        Some(AggregationSource::Internal)
    } else {
        proof {
            assert forall|s: AggregationSource| spec_source_token(s) != tok@ by {
                match s {
                    AggregationSource::External => {},
                    AggregationSource::Internal => {},
                }
            };
        }
        None
    }
}

/// Reads an unsigned decimal; every canonical decimal form reads back as
/// its number.
fn parse_u64(s: &str) -> (r: Option<u64>)
    requires
        s.is_ascii(),
    ensures
        forall|v: u64| s@ == spec_dec(v) ==> r == Some(v),
{
    let n = s.unicode_len();
    if n == 0 {
        proof {
            assert forall|v: u64| s@ != spec_dec(v) by {
                lemma_dec_props(v);
            };
        }
        return None;
    }
    let mut acc: u64 = 0;
    let mut i: usize = 0;
    while i < n
        invariant
            i <= n,
            n == s@.len(),
            s.is_ascii(),
            forall|k: int| 0 <= k < i ==> 48 <= #[trigger] s@[k] as u32 <= 57,
            acc as int == spec_digits_val(s@.take(i as int)),
        decreases n - i,
    {
        let c = s.get_char(i);
        let code = c as u32;
        if code < 48 || code > 57 {
            proof {
                assert forall|v: u64| s@ != spec_dec(v) by {
                    if s@ == spec_dec(v) {
                        lemma_dec_props(v);
                        assert(48 <= s@[i as int] as u32 <= 57);
                    }
                };
            }
            return None;
        }
        let d = (code - 48) as u64;
        proof {
            assert(s@.take(i as int + 1).drop_last() =~= s@.take(i as int));
            assert(s@.take(i as int + 1).last() == s@[i as int]);
            assert(spec_digits_val(s@.take(i as int + 1)) == acc as int * 10 + d as int);
        }
        if acc > (u64::MAX - d) / 10 {
            proof {
                assert forall|v: u64| s@ != spec_dec(v) by {
                    if s@ == spec_dec(v) {
                        lemma_dec_props(v);
                        lemma_digits_prefix_le(s@, i as int + 1);
                        assert(acc as int * 10 + d as int <= v as int);
                        let q = (u64::MAX - d) / 10;
                        assert(u64::MAX - d == q * 10 + (u64::MAX - d) % 10);
                        assert((u64::MAX - d) % 10 < 10);
                        assert(acc as int * 10 >= (q as int + 1) * 10) by (nonlinear_arith)
                            requires acc as int >= q as int + 1;
                        assert((q as int + 1) * 10 == q as int * 10 + 10) by (nonlinear_arith);
                        assert(acc as int * 10 + d as int > u64::MAX as int);
                    }
                };
            }
            return None;
        }
        acc = acc * 10 + d;
        i = i + 1;
    }
    proof {
        assert(s@.take(n as int) =~= s@);
        assert forall|v: u64| s@ == spec_dec(v) implies Some(acc) == Some::<u64>(v) by {
            lemma_dec_props(v);
        };
    }
    Some(acc)
}

/// Helper: a strictly increasing run is strictly increasing across any
/// two positions.
proof fn lemma_sorted_pair(ds: Seq<usize>, k: int, l: int)
    requires
        forall|j: int| 0 <= j && j + 1 < ds.len() ==> #[trigger] ds[j] < ds[j + 1],
        0 <= k < l < ds.len(),
    ensures
        ds[k] < ds[l],
    decreases l - k,
{
    if k + 1 < l {
        lemma_sorted_pair(ds, k + 1, l);
    }
}

/// Helper: for a well-formed bar type's canonical form, a complete sorted
/// record of its dash positions is exactly the four separators.
proof fn lemma_canonical_dashes(bt: BarTypeView, s: Seq<char>, ds: Seq<usize>)
    requires
        wf_bar_type(bt),
        bar_type_repr(bt) == s,
        forall|k: int|
            0 <= k < ds.len() ==> ((#[trigger] ds[k]) as int) < s.len() && s[ds[k] as int]
                == '-',
        forall|j: int| 0 <= j && j + 1 < ds.len() ==> #[trigger] ds[j] < ds[j + 1],
        forall|j: int| 0 <= j < s.len() && s[j] == '-' ==> ds.contains(j as usize),
        s.len() <= usize::MAX,
    ensures
        ds.len() == 4,
        ds[0] as int == bt.instrument_id.len() as int,
        ds[1] as int == ds[0] + 1 + spec_dec(bt.spec.step).len(),
        ds[2] as int == ds[1] + 1 + spec_aggregation_token(bt.spec.aggregation).len(),
        ds[3] as int == ds[2] + 1 + spec_price_type_token(bt.spec.price_type).len(),
        (ds[3] as int) + 1 + spec_source_token(bt.aggregation_source).len() == s.len(),
{
    lemma_repr_structure(bt);
    let p1 = bt.instrument_id.len() as int;
    let p2 = p1 + 1 + spec_dec(bt.spec.step).len();
    let p3 = p2 + 1 + spec_aggregation_token(bt.spec.aggregation).len();
    let p4 = p3 + 1 + spec_price_type_token(bt.spec.price_type).len();
    assert((p1 as usize) as int == p1);
    assert((p2 as usize) as int == p2);
    assert((p3 as usize) as int == p3);
    assert((p4 as usize) as int == p4);
    assert(s[p1] == '-');
    assert(s[p2] == '-');
    assert(s[p3] == '-');
    assert(s[p4] == '-');
    assert(ds.contains(p1 as usize));
    assert(ds.contains(p2 as usize));
    assert(ds.contains(p3 as usize));
    assert(ds.contains(p4 as usize));
    let k1 = choose|k: int| 0 <= k < ds.len() && ds[k] == p1 as usize;
    let k2 = choose|k: int| 0 <= k < ds.len() && ds[k] == p2 as usize;
    let k3 = choose|k: int| 0 <= k < ds.len() && ds[k] == p3 as usize;
    let k4 = choose|k: int| 0 <= k < ds.len() && ds[k] == p4 as usize;
    assert forall|k: int| 0 <= k < ds.len() implies ds[k] as int == p1 || ds[k] as int == p2
        || ds[k] as int == p3 || ds[k] as int == p4 by {
        assert(s[ds[k] as int] == '-');
    };
    assert(k1 == 0) by {
        if k1 > 0 {
            lemma_sorted_pair(ds, 0, k1);
            assert(ds[0] < ds[k1]);
            assert(ds[0] as int == p1 || ds[0] as int == p2 || ds[0] as int == p3 || ds[0] as int
                == p4);
        }
    };
    assert(k2 == 1) by {
        assert(k2 != 0);
        if k2 > 1 {
            lemma_sorted_pair(ds, 0, 1);
            lemma_sorted_pair(ds, 1, k2);
            assert(ds[1] as int == p1 || ds[1] as int == p2 || ds[1] as int == p3 || ds[1] as int
                == p4);
        }
    };
    assert(k3 == 2) by {
        assert(k3 != 0 && k3 != 1);
        if k3 > 2 {
            lemma_sorted_pair(ds, 1, 2);
            lemma_sorted_pair(ds, 2, k3);
            assert(ds[2] as int == p1 || ds[2] as int == p2 || ds[2] as int == p3 || ds[2] as int
                == p4);
        }
    };
    assert(k4 == 3) by {
        assert(k4 != 0 && k4 != 1 && k4 != 2);
        if k4 > 3 {
            lemma_sorted_pair(ds, 2, 3);
            lemma_sorted_pair(ds, 3, k4);
            assert(ds[3] as int == p1 || ds[3] as int == p2 || ds[3] as int == p3 || ds[3] as int
                == p4);
        }
    };
    assert(ds.len() == 4) by {
        if ds.len() > 4 {
            lemma_sorted_pair(ds, 3, ds.len() - 1);
            assert(ds[ds.len() - 1] as int == p1 || ds[ds.len() - 1] as int == p2 || ds[ds.len()
                - 1] as int == p3 || ds[ds.len() - 1] as int == p4);
        }
    };
}

/// Reads a bar type from its textual form.
///
/// Exactness: a successful reading re-serializes to the input, and a
/// failed reading means no well-formed bar type (`wf_bar_type`) has the
/// input as its canonical form.
#[verifier::rlimit(100)]
pub fn bar_type_from_str(s: &str) -> (r: Option<BarType>)
    ensures
        r matches Some(bt) ==> bar_type_repr(bt@) == s@,
        r is None ==> forall|bt: BarTypeView| wf_bar_type(bt) ==> bar_type_repr(bt) != s@,
{
    if !s.is_ascii() {
        proof {
            assert forall|bt: BarTypeView| wf_bar_type(bt) implies bar_type_repr(bt) != s@ by {
                if bar_type_repr(bt) == s@ {
                    lemma_repr_structure(bt);
                }
            };
        }
        return None;
    }
    let n = s.unicode_len();
    let mut dashes: Vec<usize> = Vec::new();
    let mut i: usize = 0;
    while i < n
        invariant
            i <= n,
            n == s@.len(),
            s.is_ascii(),
            forall|k: int|
                0 <= k < dashes@.len() ==> (#[trigger] dashes@[k]) < i && s@[dashes@[k] as int]
                    == '-',
            forall|j: int| 0 <= j && j + 1 < dashes@.len() ==> #[trigger] dashes@[j] < dashes@[j
                    + 1],
            forall|j: int| 0 <= j < i && s@[j] == '-' ==> dashes@.contains(j as usize),
        decreases n - i,
    {
        if s.get_char(i) == '-' {
            let ghost pre = dashes@;
            dashes.push(i);
            proof {
                assert(dashes@.last() == i);
                assert forall|j: int| 0 <= j < i + 1 && s@[j] == '-' implies dashes@.contains(
                    j as usize,
                ) by {
                    if j < i as int {
                        let w = choose|w: int| 0 <= w < pre.len() && pre[w] == j as usize;
                        assert(dashes@[w] == j as usize);
                    } else {
                        assert(dashes@[dashes@.len() - 1] == j as usize);
                    }
                };
            }
        }
        i = i + 1;
    }
    let m = dashes.len();
    if m < 4 {
        proof {
            assert forall|bt: BarTypeView| wf_bar_type(bt) implies bar_type_repr(bt) != s@ by {
                if bar_type_repr(bt) == s@ {
                    lemma_canonical_dashes(bt, s@, dashes@);
                }
            };
        }
        return None;
    }
    let d1 = dashes[m - 4];
    let d2 = dashes[m - 3];
    let d3 = dashes[m - 2];
    let d4 = dashes[m - 1];
    if !(d1 < d2 && d2 < d3 && d3 < d4 && d4 < n && d1 >= 1) {
        proof {
            assert forall|bt: BarTypeView| wf_bar_type(bt) implies bar_type_repr(bt) != s@ by {
                if bar_type_repr(bt) == s@ {
                    lemma_canonical_dashes(bt, s@, dashes@);
                    lemma_repr_structure(bt);
                }
            };
        }
        return None;
    }
    let iid = s.substring_ascii(0, d1);
    let step_s = s.substring_ascii(d1 + 1, d2);
    let agg_str = s.substring_ascii(d2 + 1, d3);
    let agg_s = String::from_str(agg_str);
    let pt_str = s.substring_ascii(d3 + 1, d4);
    let pt_s = String::from_str(pt_str);
    let src_str = s.substring_ascii(d4 + 1, n);
    let src_s = String::from_str(src_str);
    let step_parsed = parse_u64(step_s);
    let step = match step_parsed {
        Some(v) => v,
        None => {
            proof {
                assert forall|bt: BarTypeView| wf_bar_type(bt) implies bar_type_repr(bt)
                    != s@ by {
                    if bar_type_repr(bt) == s@ {
                        lemma_canonical_dashes(bt, s@, dashes@);
                        lemma_repr_structure(bt);
                        assert(step_s@ =~= spec_dec(bt.spec.step));
                    }
                };
            }
            return None;
        },
    };
    let agg_parsed = parse_aggregation(&agg_s);
    let aggregation = match agg_parsed {
        Some(v) => v,
        None => {
            proof {
                assert forall|bt: BarTypeView| wf_bar_type(bt) implies bar_type_repr(bt)
                    != s@ by {
                    if bar_type_repr(bt) == s@ {
                        lemma_canonical_dashes(bt, s@, dashes@);
                        lemma_repr_structure(bt);
                        assert(agg_s@ =~= spec_aggregation_token(bt.spec.aggregation));
                    }
                };
            }
            return None;
        },
    };
    let pt_parsed = parse_price_type(&pt_s);
    let price_type = match pt_parsed {
        Some(v) => v,
        None => {
            proof {
                assert forall|bt: BarTypeView| wf_bar_type(bt) implies bar_type_repr(bt)
                    != s@ by {
                    if bar_type_repr(bt) == s@ {
                        lemma_canonical_dashes(bt, s@, dashes@);
                        lemma_repr_structure(bt);
                        assert(pt_s@ =~= spec_price_type_token(bt.spec.price_type));
                    }
                };
            }
            return None;
        },
    };
    let src_parsed = parse_source(&src_s);
    let aggregation_source = match src_parsed {
        Some(v) => v,
        None => {
            proof {
                assert forall|bt: BarTypeView| wf_bar_type(bt) implies bar_type_repr(bt)
                    != s@ by {
                    if bar_type_repr(bt) == s@ {
                        lemma_canonical_dashes(bt, s@, dashes@);
                        lemma_repr_structure(bt);
                        assert(src_s@ =~= spec_source_token(bt.aggregation_source));
                    }
                };
            }
            return None;
        },
    };
    let candidate = BarType {
        instrument_id: InstrumentId::new(String::from_str(iid)),
        spec: BarSpecification { step, aggregation, price_type },
        aggregation_source,
    };
    let canonical = bar_type_to_string(&candidate);
    let input = String::from_str(s);
    if canonical == input {
        Some(candidate)
    } else {
        proof {
            assert forall|bt: BarTypeView| wf_bar_type(bt) implies bar_type_repr(bt) != s@ by {
                if bar_type_repr(bt) == s@ {
                    lemma_canonical_dashes(bt, s@, dashes@);
                    lemma_repr_structure(bt);
                    assert(candidate@.instrument_id =~= bt.instrument_id);
                    assert(step_s@ =~= spec_dec(bt.spec.step));
                    assert(candidate.spec.step == bt.spec.step);
                    assert(agg_s@ =~= spec_aggregation_token(bt.spec.aggregation));
                    assert(spec_aggregation_token(candidate.spec.aggregation) == agg_s@);
                    assert(pt_s@ =~= spec_price_type_token(bt.spec.price_type));
                    assert(spec_price_type_token(candidate.spec.price_type) == pt_s@);
                    assert(src_s@ =~= spec_source_token(bt.aggregation_source));
                    assert(spec_source_token(candidate.aggregation_source) == src_s@);
                    assert(bar_type_repr(candidate@) == bar_type_repr(bt));
                    assert(canonical@ == s@);
                }
            };
        }
        None
    }
}

} // verus!
