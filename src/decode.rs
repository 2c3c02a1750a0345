//! The decoders, and the registry that picks one for a canonical key.

use vstd::prelude::*;
use crate::table::{lookup, keys_unique, absent, lemma_lookup_row, lemma_lookup_absent};
use crate::text::{split_spec, first_index, split_on, find_char, lemma_first_index};
use crate::value::{ConfigValue, ValueView, entries_map, distinct_keys, lemma_entries_map};

verus! {

/// One more than the largest magnitude an `isize` can have on any target;
/// digits past it cannot give an `isize`.
const DIGITS_LIMIT: u128 = 0x1_0000_0000_0000_0000;

pub open spec fn is_digit(c: char) -> bool {
    '0' <= c && c <= '9'
}

pub open spec fn all_digits(d: Seq<char>) -> bool {
    forall|i: int| 0 <= i < d.len() ==> is_digit(#[trigger] d[i])
}

/// The base-10 value of a run of digits.
pub open spec fn digits_value(d: Seq<char>) -> int
    decreases d.len(),
{
    if d.len() == 0 {
        0
    } else {
        digits_value(d.drop_last()) * 10 + (d.last() as int - '0' as int)
    }
}

/// The integer that `s` writes: an optional `+` or `-`, then one or more
/// decimal digits, and nothing else.
pub open spec fn int_syntax(s: Seq<char>) -> Option<int> {
    let signed = s.len() > 0 && (s[0] == '+' || s[0] == '-');
    let body = if signed { s.drop_first() } else { s };
    if body.len() > 0 && all_digits(body) {
        Some(if signed && s[0] == '-' { -digits_value(body) } else { digits_value(body) })
    } else {
        None
    }
}

/// Integer decoding: the value `s` writes, if it fits in an `isize`.
pub open spec fn int_spec(s: Seq<char>) -> Option<ValueView> {
    match int_syntax(s) {
        Some(v) => if isize::MIN <= v <= isize::MAX {
            Some(ValueView::Int(v))
        } else {
            None
        },
        None => None,
    }
}

/// The map that comma-separated `key:value` entries describe: each entry is cut
/// at its first `:`, entries without one are left out, and a later entry
/// replaces an earlier one with the same key.
pub open spec fn keyval_map(entries: Seq<Seq<char>>) -> Map<Seq<char>, Seq<char>>
    decreases entries.len(),
{
    if entries.len() == 0 {
        Map::empty()
    } else {
        let m = keyval_map(entries.drop_last());
        let e = entries.last();
        let i = first_index(e, ':');
        if i >= 0 {
            m.insert(e.subrange(0, i), e.subrange(i + 1, e.len() as int))
        } else {
            m
        }
    }
}

/// `r` is the result a decoder owes: absent exactly when `expected` is, and
/// otherwise a well-formed value whose model is `expected`.
pub open spec fn decoded_as(r: Option<ConfigValue>, expected: Option<ValueView>) -> bool {
    match r {
        Some(v) => v.wf() && expected == Some(v@),
        None => expected is None,
    }
}

/// Digit runs never lose value as they grow.
pub proof fn lemma_digits_grow(d: Seq<char>, k: int)
    requires
        all_digits(d),
        0 <= k <= d.len(),
    ensures
        0 <= digits_value(d.subrange(0, k)) <= digits_value(d),
    decreases d.len(),
{
    if k < d.len() {
        let t = d.drop_last();
        assert(t.subrange(0, k) =~= d.subrange(0, k));
        assert forall|i: int| 0 <= i < t.len() implies is_digit(#[trigger] t[i]) by {
            assert(t[i] == d[i]);
        }
        lemma_digits_grow(t, k);
        assert(is_digit(d[d.len() - 1]));
    } else {
        assert(d.subrange(0, k) =~= d);
        lemma_digits_nonneg(d);
    }
}

pub proof fn lemma_digits_nonneg(d: Seq<char>)
    requires
        all_digits(d),
    ensures
        digits_value(d) >= 0,
    decreases d.len(),
{
    if d.len() > 0 {
        let t = d.drop_last();
        assert forall|i: int| 0 <= i < t.len() implies is_digit(#[trigger] t[i]) by {
            assert(t[i] == d[i]);
        }
        lemma_digits_nonneg(t);
        assert(is_digit(d[d.len() - 1]));
    }
}

/// String decoding: the input itself.
pub fn parse_str(s: &str) -> (r: Option<ConfigValue>)
    ensures
        decoded_as(r, Some(ValueView::Str(s@))),
{
    Some(ConfigValue::Str(s.to_owned()))
}

/// Integer decoding: a base-10 signed integer that fits in an `isize`, written
/// with an optional sign and digits only.
pub fn parse_int(s: &str) -> (r: Option<ConfigValue>)
    ensures
        decoded_as(r, int_spec(s@)),
{
    let n = s.unicode_len();
    if n == 0 {
        return None;
    }
    let first = s.get_char(0);
    let neg = first == '-';
    let start: usize = if first == '+' || first == '-' { 1 } else { 0 };
    let ghost body = s@.subrange(start as int, n as int);
    proof {
        assert(s@[0] == first);
        if start == 1 {
            assert(body =~= s@.drop_first());
        } else {
            assert(body =~= s@);
        }
    }
    if start == n {
        return None;
    }
    let mut acc: u128 = 0;
    let mut i: usize = start;
    proof {
        assert(body.subrange(0, 0) =~= Seq::<char>::empty());
    }
    while i < n
        invariant
            n == s@.len(),
            start <= i <= n,
            body == s@.subrange(start as int, n as int),
            n > 0,
            start <= 1,
            start == 1 <==> (s@[0] == '+' || s@[0] == '-'),
            start == 1 ==> body == s@.drop_first(),
            start == 0 ==> body == s@,
            neg == (s@[0] == '-'),
            all_digits(body.subrange(0, i - start)),
            acc == digits_value(body.subrange(0, i - start)),
            acc <= DIGITS_LIMIT,
        decreases n - i,
    {
        let c = s.get_char(i);
        proof {
            assert(body[i - start] == c);
        }
        if !('0' <= c && c <= '9') {
            assert(!all_digits(body));
            return None;
        }
        let d: u128 = (c as u32 - '0' as u32) as u128;
        acc = acc * 10 + d;
        proof {
            let p = body.subrange(0, i + 1 - start);
            assert(p.drop_last() =~= body.subrange(0, i - start));
            assert forall|j: int| 0 <= j < p.len() implies is_digit(#[trigger] p[j]) by {
                if j < p.len() - 1 {
                    assert(p[j] == body.subrange(0, i - start)[j]);
                }
            }
        }
        if acc > DIGITS_LIMIT {
            proof {
                let p = body.subrange(0, i + 1 - start);
                assert(p.drop_last() =~= body.subrange(0, i - start));
                assert(digits_value(p) == acc);
                if all_digits(body) {
                    lemma_digits_grow(body, i + 1 - start);
                    assert(isize::MAX < DIGITS_LIMIT && -(DIGITS_LIMIT as int) < isize::MIN);
                    assert(digits_value(body) > DIGITS_LIMIT);
                }
            }
            return None;
        }
        i = i + 1;
    }
    proof {
        assert(body.subrange(0, n - start) =~= body);
    }
    let v: i128 = if neg { -(acc as i128) } else { acc as i128 };
    if v < isize::MIN as i128 || v > isize::MAX as i128 {
        return None;
    }
    Some(ConfigValue::Int(v as isize))
}

/// CSV-strings decoding: the pieces between commas, in order.
pub fn parse_csv_strs(s: &str) -> (r: Option<ConfigValue>)
    ensures
        decoded_as(r, Some(ValueView::Array(split_spec(s@, ',')))),
{
    Some(ConfigValue::Array(split_on(s, ',')))
}

/// Sets `key` to `val` in a list of entries without repeated keys: an entry
/// with that key is replaced in place, otherwise one is appended.
fn put_entry(entries: &mut Vec<(String, String)>, key: String, val: String)
    requires
        distinct_keys(old(entries).deep_view()),
    ensures
        distinct_keys(final(entries).deep_view()),
        entries_map(final(entries).deep_view()) == entries_map(old(entries).deep_view()).insert(
            key@,
            val@,
        ),
{
    let ghost e0 = entries.deep_view();
    let mut j: usize = 0;
    while j < entries.len()
        invariant
            entries.deep_view() == e0,
            e0 == old(entries).deep_view(),
            distinct_keys(e0),
            j <= entries.len(),
            forall|i: int| 0 <= i < j ==> e0[i].0 != key@,
        decreases entries.len() - j,
    {
        proof {
            assert(e0[j as int].0 == entries@[j as int].0@);
        }
        if entries[j].0 == key {
            let ghost k = key@;
            let ghost v = val@;
            entries.set(j, (key, val));
            proof {
                let e1 = entries.deep_view();
                assert(e1 =~= e0.update(j as int, (k, v)));
                assert(distinct_keys(e1)) by {
                    assert forall|a: int, b: int| 0 <= a < b < e1.len() implies e1[a].0 != e1[b].0 by {
                        if a != j && b != j {
                            assert(e1[a] == e0[a] && e1[b] == e0[b]);
                        } else if a == j {
                            assert(e1[b] == e0[b]);
                        } else {
                            assert(e1[a] == e0[a]);
                        }
                    }
                }
                lemma_entries_map(e0);
                lemma_entries_map(e1);
                let m0 = entries_map(e0).insert(k, v);
                let m1 = entries_map(e1);
                assert forall|q: Seq<char>| m1.contains_key(q) == m0.contains_key(q) by {
                    if m1.contains_key(q) {
                        let i = choose|i: int| 0 <= i < e1.len() && e1[i].0 == q;
                        if i != j {
                            assert(e0[i] == e1[i]);
                            assert(entries_map(e0).contains_key(e0[i].0));
                        }
                    }
                    if m0.contains_key(q) && q != k {
                        let i = choose|i: int| 0 <= i < e0.len() && e0[i].0 == q;
                        assert(e0[i] == e1[i]);
                        assert(m1.contains_key(e1[i].0));
                    }
                    if q == k {
                        assert(m1.contains_key(e1[j as int].0));
                    }
                }
                assert forall|q: Seq<char>| m1.contains_key(q) implies m1[q] == m0[q] by {
                    let i = choose|i: int| 0 <= i < e1.len() && e1[i].0 == q;
                    assert(m1.contains_key(e1[i].0));
                    if i != j {
                        assert(e0[i] == e1[i]);
                        assert(entries_map(e0).contains_key(e0[i].0));
                    }
                }
                assert(m1 =~= m0);
            }
            return;
        }
        j = j + 1;
    }
    entries.push((key, val));
    proof {
        let e1 = entries.deep_view();
        assert(e1.drop_last() =~= e0);
        assert(distinct_keys(e1)) by {
            assert forall|a: int, b: int| 0 <= a < b < e1.len() implies e1[a].0 != e1[b].0 by {
                if b < e0.len() {
                    assert(e1[a] == e0[a] && e1[b] == e0[b]);
                } else {
                    assert(e1[a] == e0[a]);
                }
            }
        }
    }
}

/// CSV-key/value decoding: comma-separated `key:value` entries, each cut at its
/// first `:`; entries without a `:` are dropped, and a later entry replaces an
/// earlier one with the same key.
pub fn parse_csv_keyval_strs(s: &str) -> (r: Option<ConfigValue>)
    ensures
        decoded_as(r, Some(ValueView::Object(keyval_map(split_spec(s@, ','))))),
{
    let pieces = split_on(s, ',');
    let ghost ps = pieces.deep_view();
    let mut entries: Vec<(String, String)> = Vec::new();
    let mut k: usize = 0;
    proof {
        assert(ps.subrange(0, 0) =~= Seq::<Seq<char>>::empty());
        assert(entries.deep_view() =~= Seq::<(Seq<char>, Seq<char>)>::empty());
        assert(entries_map(entries.deep_view()) =~= keyval_map(ps.subrange(0, 0)));
    }
    while k < pieces.len()
        invariant
            ps == pieces.deep_view(),
            k <= pieces.len(),
            distinct_keys(entries.deep_view()),
            entries_map(entries.deep_view()) == keyval_map(ps.subrange(0, k as int)),
        decreases pieces.len() - k,
    {
        let piece = pieces[k].as_str();
        proof {
            assert(ps[k as int] == piece@);
            assert(ps.subrange(0, k + 1).drop_last() =~= ps.subrange(0, k as int));
            assert(ps.subrange(0, k + 1).last() == piece@);
        }
        match find_char(piece, ':') {
            Some(i) => {
                proof {
                    lemma_first_index(piece@, ':');
                }
                let n = piece.unicode_len();
                let key = piece.substring_char(0, i).to_owned();
                let val = piece.substring_char(i + 1, n).to_owned();
                put_entry(&mut entries, key, val);
            },
            None => {},
        }
        k = k + 1;
    }
    proof {
        assert(ps.subrange(0, pieces.len() as int) =~= ps);
    }
    Some(ConfigValue::Object(entries))
}

/// The decoding rule bound to a canonical key.
#[derive(Clone, Copy, Debug, PartialEq, Eq)]
pub enum Decoder {
    Str,
    Int,
    CsvStrs,
    CsvKeyVals,
}

impl DeepView for Decoder {
    type V = Decoder;

    open spec fn deep_view(&self) -> Decoder {
        *self
    }
}

/// The decoder table, as `(canonical key, decoder)` rows.
pub open spec fn decoder_rows() -> Seq<(Seq<char>, Decoder)> {
    seq![
        ("hhvm.dynamic_invoke_functions"@, Decoder::CsvStrs),
        ("hhvm.include_roots"@, Decoder::CsvKeyVals),
        ("hhvm.reffiness_invariance"@, Decoder::Int),
    ]
}

/// The decoder for `key`: the one its row names, or string decoding when the
/// table has no row for it.
pub open spec fn decoder_for(key: Seq<char>) -> Decoder {
    match lookup(decoder_rows(), key) {
        Some(d) => d,
        None => Decoder::Str,
    }
}

impl Decoder {
    /// What this decoder makes of `s`; `None` is a decoding failure.
    pub open spec fn spec_decode(self, s: Seq<char>) -> Option<ValueView> {
        match self {
            Decoder::Str => Some(ValueView::Str(s)),
            Decoder::Int => int_spec(s),
            Decoder::CsvStrs => Some(ValueView::Array(split_spec(s, ','))),
            Decoder::CsvKeyVals => Some(ValueView::Object(keyval_map(split_spec(s, ',')))),
        }
    }

    /// Applies this decoder to the raw value `s`.
    pub fn decode(&self, s: &str) -> (r: Option<ConfigValue>)
        ensures
            decoded_as(r, self.spec_decode(s@)),
    {
        match self {
            Decoder::Str => parse_str(s),
            Decoder::Int => parse_int(s),
            Decoder::CsvStrs => parse_csv_strs(s),
            Decoder::CsvKeyVals => parse_csv_keyval_strs(s),
        }
    }
}

/// The decoder table as executable rows, in the same order as `decoder_rows`.
pub fn decoder_entries() -> (r: Vec<(&'static str, Decoder)>)
    ensures
        r.deep_view() == decoder_rows(),
{
    let r = vec![
        ("hhvm.dynamic_invoke_functions", Decoder::CsvStrs),
        ("hhvm.include_roots", Decoder::CsvKeyVals),
        ("hhvm.reffiness_invariance", Decoder::Int),
    ];
    assert(r.deep_view() =~= decoder_rows());
    r
}

/// The decoder table, built once and consulted by reference.
pub struct DecoderTable {
    rows: Vec<(&'static str, Decoder)>,
}

impl DecoderTable {
    /// The table's rows, as `(canonical key, decoder)`.
    pub closed spec fn rows(&self) -> Seq<(Seq<char>, Decoder)> {
        self.rows.deep_view()
    }

    /// The table holds exactly the rows of `decoder_rows`.
    pub open spec fn wf(&self) -> bool {
        self.rows() == decoder_rows()
    }

    pub fn new() -> (r: DecoderTable)
        ensures
            r.wf(),
    {
        DecoderTable { rows: decoder_entries() }
    }

    /// The decoder for the canonical key `key`; keys without a registered
    /// decoder get string decoding.
    pub fn decoder(&self, key: &str) -> (r: Decoder)
        requires
            self.wf(),
        ensures
            r == decoder_for(key@),
    {
        let rows = &self.rows;
        let k = key.to_owned();
        let mut i: usize = 0;
        assert(decoder_rows().subrange(0, decoder_rows().len() as int) =~= decoder_rows());
        while i < rows.len()
            invariant
                rows.deep_view() == decoder_rows(),
                k@ == key@,
                i <= rows.len(),
                lookup(decoder_rows(), key@) == lookup(
                    decoder_rows().subrange(i as int, decoder_rows().len() as int),
                    key@,
                ),
            decreases rows.len() - i,
        {
            let (name, decoder) = rows[i];
            let candidate = name.to_owned();
            proof {
                let rest = decoder_rows().subrange(i as int, decoder_rows().len() as int);
                assert(rest.drop_first() =~= decoder_rows().subrange(i + 1, decoder_rows().len() as int));
                assert(rest[0] == (name@, decoder));
            }
            if candidate == k {
                return decoder;
            }
            i = i + 1;
        }
        proof {
            assert(decoder_rows().subrange(i as int, decoder_rows().len() as int).len() == 0);
        }
        Decoder::Str
    }
}

/// Given a canonical configuration key, returns the decoder for its values
/// from a freshly built decoder table; keys without a registered decoder get
/// string decoding.
pub fn to_json(key: &str) -> (r: Decoder)
    ensures
        r == decoder_for(key@),
{
    DecoderTable::new().decoder(key)
}

/// No canonical key has two rows in the decoder table.
pub proof fn lemma_decoder_keys_unique()
    ensures
        keys_unique(decoder_rows()),
{
    reveal_strlit("hhvm.dynamic_invoke_functions");
    reveal_strlit("hhvm.include_roots");
    reveal_strlit("hhvm.reffiness_invariance");
    let rows = decoder_rows();
    assert forall|i: int, j: int| 0 <= i < j < rows.len() implies rows[i].0 != rows[j].0 by {
        if rows[i].0 == rows[j].0 {
            assert(rows[i].0.len() == rows[j].0.len());
        }
    }
}

/// Every row of the decoder table is what the lookup returns for its key.
pub proof fn law_decoder_rows(i: int)
    requires
        0 <= i < decoder_rows().len(),
    ensures
        decoder_for(decoder_rows()[i].0) == decoder_rows()[i].1,
{
    lemma_decoder_keys_unique();
    lemma_lookup_row(decoder_rows(), i);
}

/// A key without a row in the decoder table gets string decoding.
pub proof fn law_decoder_default(key: Seq<char>)
    requires
        absent(decoder_rows(), key),
    ensures
        decoder_for(key) == Decoder::Str,
{
    lemma_lookup_absent(decoder_rows(), key);
}

/// String decoding never fails and gives back its input unchanged.
pub proof fn law_string_lossless(s: Seq<char>)
    ensures
        Decoder::Str.spec_decode(s) == Some(ValueView::Str(s)),
{
}

} // verus!
