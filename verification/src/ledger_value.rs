//! Multi-asset ledger values: quantities indexed by currency symbol and
//! token name, kept sorted and canonical.

use vstd::prelude::*;

use crate::constant::{
    copy_bytes, data_view, datas_view, lemma_datas_view_push, lemma_pairs_view_index, lemma_pairs_view_push,
    pairs_view, DataV, PlutusData,
};
use crate::cost_model::saturating::{clamp_i64, saturating_add_i64};
use crate::integer::Integer;
use crate::machine::runtime::{bytes_equal, bytes_less};
use crate::machine::semantics::bytes_lt;

verus! {

/// Why a data item does not stand for a ledger value.
#[derive(Debug, Clone, Copy, PartialEq, Eq, Structural)]
pub enum UnValueDataError {
    /// A map was expected.
    NonMapConstructor,
    /// A byte string was expected.
    NonByteStringConstructor,
    /// An integer was expected.
    NonIntegerConstructor,
    /// A currency symbol or token name is longer than 32 bytes.
    InvalidKey,
    /// A currency has no token.
    EmptyInnerMap,
    /// The currency symbols are not in strictly ascending order.
    CurrencyNotAscending,
    /// The token names of a currency are not in strictly ascending order.
    TokenNotAscending,
    /// A quantity is zero or outside the signed 128-bit range.
    InvalidQuantity,
}

/// Why an operation on ledger values failed.
#[derive(Debug, Clone, Copy, PartialEq, Eq, Structural)]
pub enum ValueError {
    /// `insertCoin` received an invalid currency symbol.
    InsertCoinInvalidCurrency,
    /// `insertCoin` received an invalid token name.
    InsertCoinInvalidToken,
    /// A sum left the signed 128-bit range.
    UnionValueQuantityOutOfBounds,
    /// The first value of `valueContains` has a negative quantity.
    ValueContainsFirstNegative,
    /// The second value of `valueContains` has a negative quantity.
    ValueContainsSecondNegative,
    /// A product left the signed 128-bit range.
    ScaleValueQuantityOutOfBounds,
    /// The value has more tokens than `valueData` accepts (the limit).
    ValueDataMaxSizeExceeded(usize),
    /// The data item does not stand for a ledger value.
    UnValueData(UnValueDataError),
    /// A quantity is outside the signed 128-bit range.
    QuantityOutOfBounds,
}

/// A token name and its quantity.
pub struct TokenEntry {
    pub name: Vec<u8>,
    pub quantity: Integer,
}

/// A currency symbol and its tokens, sorted by name.
pub struct CurrencyEntry {
    pub currency: Vec<u8>,
    pub tokens: Vec<TokenEntry>,
}

/// A multi-asset value: currencies sorted by symbol, with the number of
/// tokens and of negative quantities.
pub struct LedgerValue {
    pub entries: Vec<CurrencyEntry>,
    pub size: usize,
    pub negative_count: usize,
}

/// The tokens of a currency as name and quantity.
pub type TokensV = Seq<(Seq<u8>, int)>;

/// The currencies of a value as symbol and tokens.
pub type EntriesV = Seq<(Seq<u8>, TokensV)>;

/// The value of a sequence of token entries.
pub open spec fn tokens_view(s: Seq<TokenEntry>) -> TokensV {
    Seq::new(s.len(), |i: int| (s[i].name@, s[i].quantity@))
}

/// The value of a sequence of currency entries.
pub open spec fn entries_view(s: Seq<CurrencyEntry>) -> EntriesV {
    Seq::new(s.len(), |i: int| (s[i].currency@, tokens_view(s[i].tokens@)))
}

impl View for LedgerValue {
    type V = EntriesV;

    open spec fn view(&self) -> EntriesV {
        entries_view(self.entries@)
    }
}

/// What the first entry with key `k` holds.
pub open spec fn find<T>(s: Seq<(Seq<u8>, T)>, k: Seq<u8>) -> Option<T>
    decreases s.len(),
{
    if s.len() == 0 {
        None
    } else if s[0].0 == k {
        Some(s[0].1)
    } else {
        find(s.subrange(1, s.len() as int), k)
    }
}

/// The quantity of token `t` among `ts`; 0 when absent.
pub open spec fn token_quantity(ts: TokensV, t: Seq<u8>) -> int {
    match find(ts, t) {
        Some(q) => q,
        None => 0,
    }
}

/// The quantity of token `t` of currency `c` in `v`; 0 when absent.
pub open spec fn quantity(v: EntriesV, c: Seq<u8>, t: Seq<u8>) -> int {
    match find(v, c) {
        Some(ts) => token_quantity(ts, t),
        None => 0,
    }
}

/// Whether the keys are strictly ascending.
pub open spec fn sorted_keys<T>(s: Seq<(Seq<u8>, T)>) -> bool {
    forall|i: int, j: int| 0 <= i < j < s.len() ==> bytes_lt(#[trigger] s[i].0, #[trigger] s[j].0)
}

/// Whether the tokens of a currency are well formed: at least one, sorted by
/// name, no zero quantity.
pub open spec fn tokens_wf(ts: TokensV) -> bool {
    &&& ts.len() > 0
    &&& sorted_keys(ts)
    &&& forall|i: int| 0 <= i < ts.len() ==> #[trigger] ts[i].1 != 0
}

/// Whether the currencies are well formed: sorted by symbol, each with well
/// formed tokens.
pub open spec fn entries_wf(v: EntriesV) -> bool {
    &&& sorted_keys(v)
    &&& forall|i: int| 0 <= i < v.len() ==> tokens_wf(#[trigger] v[i].1)
}

/// The number of tokens.
pub open spec fn token_count(v: EntriesV) -> nat
    decreases v.len(),
{
    if v.len() == 0 {
        0
    } else {
        token_count(v.drop_last()) + v.last().1.len()
    }
}

/// The number of negative quantities among `ts`.
pub open spec fn negatives_in(ts: TokensV) -> nat
    decreases ts.len(),
{
    if ts.len() == 0 {
        0
    } else {
        negatives_in(ts.drop_last()) + if ts.last().1 < 0 { 1nat } else { 0nat }
    }
}

/// The number of negative quantities.
pub open spec fn negative_total(v: EntriesV) -> nat
    decreases v.len(),
{
    if v.len() == 0 {
        0
    } else {
        negative_total(v.drop_last()) + negatives_in(v.last().1)
    }
}

impl LedgerValue {
    /// Whether the value is canonical and its counts are right.
    pub open spec fn wf(&self) -> bool {
        &&& entries_wf(self@)
        &&& self.size == token_count(self@)
        &&& self.negative_count == negative_total(self@)
    }
}

/// Whether a quantity lies in the signed 128-bit range.
pub open spec fn in_quantity_range(q: int) -> bool {
    i128::MIN <= q <= i128::MAX
}

/// Byte-string order is irreflexive.
pub proof fn lemma_bytes_lt_irreflexive(a: Seq<u8>)
    ensures
        !bytes_lt(a, a),
    decreases a.len(),
{
    if a.len() > 0 {
        lemma_bytes_lt_irreflexive(a.subrange(1, a.len() as int));
    }
}

/// Byte-string order is transitive.
pub proof fn lemma_bytes_lt_transitive(a: Seq<u8>, b: Seq<u8>, c: Seq<u8>)
    requires
        bytes_lt(a, b),
        bytes_lt(b, c),
    ensures
        bytes_lt(a, c),
    decreases a.len(),
{
    if a.len() > 0 && a[0] == b[0] && b[0] == c[0] {
        lemma_bytes_lt_transitive(
            a.subrange(1, a.len() as int),
            b.subrange(1, b.len() as int),
            c.subrange(1, c.len() as int),
        );
    }
}

/// Byte-string order is total: of two different strings one is below.
pub proof fn lemma_bytes_lt_total(a: Seq<u8>, b: Seq<u8>)
    ensures
        a == b || bytes_lt(a, b) || bytes_lt(b, a),
        !(bytes_lt(a, b) && bytes_lt(b, a)),
    decreases a.len(),
{
    if a.len() > 0 && b.len() > 0 && a[0] == b[0] {
        lemma_bytes_lt_total(a.subrange(1, a.len() as int), b.subrange(1, b.len() as int));
        if a.subrange(1, a.len() as int) == b.subrange(1, b.len() as int) {
            assert(a =~= seq![a[0]] + a.subrange(1, a.len() as int));
            assert(b =~= seq![b[0]] + b.subrange(1, b.len() as int));
        }
    } else if a.len() == 0 && b.len() == 0 {
        assert(a =~= b);
    }
}

/// In sorted keys, the entry with key `s[i].0` is the `i`-th.
pub proof fn lemma_find_sorted<T>(s: Seq<(Seq<u8>, T)>, i: int)
    requires
        sorted_keys(s),
        0 <= i < s.len(),
    ensures
        find(s, s[i].0) == Some(s[i].1),
    decreases s.len(),
{
    if i > 0 {
        let rest = s.subrange(1, s.len() as int);
        assert(bytes_lt(s[0].0, s[i].0));
        lemma_bytes_lt_irreflexive(s[i].0);
        assert(rest[i - 1] == s[i]);
        lemma_find_sorted(rest, i - 1);
    }
}

/// A key that no entry has is found nowhere; one that some entry has is
/// found.
pub proof fn lemma_find_absent<T>(s: Seq<(Seq<u8>, T)>, k: Seq<u8>)
    ensures
        (forall|i: int| 0 <= i < s.len() ==> s[i].0 != k) <==> find(s, k) is None,
    decreases s.len(),
{
    if s.len() > 0 {
        let rest = s.subrange(1, s.len() as int);
        lemma_find_absent(rest, k);
        if s[0].0 != k {
            if find(s, k) is None {
                assert forall|i: int| 0 <= i < s.len() implies s[i].0 != k by {
                    if i > 0 {
                        assert(rest[i - 1] == s[i]);
                    }
                }
            } else {
                let j = choose|j: int| 0 <= j < rest.len() && rest[j].0 == k;
                assert(s[j + 1] == rest[j]);
            }
        }
    }
}

/// Looking up in a concatenation: the first part, else the second.
pub proof fn lemma_find_concat<T>(a: Seq<(Seq<u8>, T)>, b: Seq<(Seq<u8>, T)>, k: Seq<u8>)
    ensures
        find(a + b, k) == (if find(a, k) is Some { find(a, k) } else { find(b, k) }),
    decreases a.len(),
{
    if a.len() > 0 {
        assert((a + b).subrange(1, (a + b).len() as int) =~= a.subrange(1, a.len() as int) + b);
        lemma_find_concat(a.subrange(1, a.len() as int), b, k);
    } else {
        assert(a + b =~= b);
    }
}

/// The ordering of two byte strings.
#[derive(Debug, Clone, Copy, PartialEq, Eq, Structural)]
pub enum ByteOrder {
    Less,
    Equal,
    Greater,
}

/// Compares two byte strings lexicographically.
pub fn order_bytes(a: &[u8], b: &[u8]) -> (r: ByteOrder)
    ensures
        r == ByteOrder::Less <==> bytes_lt(a@, b@),
        r == ByteOrder::Equal <==> a@ == b@,
        r == ByteOrder::Greater <==> bytes_lt(b@, a@),
{
    proof {
        lemma_bytes_lt_total(a@, b@);
        lemma_bytes_lt_irreflexive(a@);
    }
    if bytes_equal(a, b) {
        ByteOrder::Equal
    } else if bytes_less(a, b) {
        ByteOrder::Less
    } else {
        ByteOrder::Greater
    }
}

/// A copy of a token entry.
fn copy_token(t: &TokenEntry) -> (r: TokenEntry)
    ensures
        r.name@ == t.name@,
        r.quantity@ == t.quantity@,
{
    TokenEntry { name: copy_bytes(&t.name), quantity: crate::constant::copy_integer(&t.quantity) }
}

/// A copy of a currency entry.
fn copy_currency(c: &CurrencyEntry) -> (r: CurrencyEntry)
    ensures
        r.currency@ == c.currency@,
        tokens_view(r.tokens@) == tokens_view(c.tokens@),
{
    let mut tokens: Vec<TokenEntry> = Vec::new();
    let mut i: usize = 0;
    while i < c.tokens.len()
        invariant
            i <= c.tokens@.len(),
            tokens_view(tokens@) == tokens_view(c.tokens@).subrange(0, i as int),
        decreases c.tokens@.len() - i,
    {
        let ghost before = tokens@;
        let t = copy_token(&c.tokens[i]);
        tokens.push(t);
        proof {
            assert(tokens_view(before).len() == i);
            assert(before.len() == i);
            assert(tokens@ == before.push(t));
            assert forall|j: int| 0 <= j <= i implies #[trigger] tokens_view(tokens@)[j] == tokens_view(c.tokens@)[j] by {
                if j < i {
                    assert(tokens@[j] == before[j]);
                    assert(tokens_view(before)[j] == tokens_view(c.tokens@).subrange(0, i as int)[j]);
                } else {
                    assert(tokens@[j] == t);
                }
            }
        }
        i += 1;
        assert(tokens_view(tokens@) =~= tokens_view(c.tokens@).subrange(0, i as int));
    }
    assert(tokens_view(c.tokens@).subrange(0, i as int) =~= tokens_view(c.tokens@));
    CurrencyEntry { currency: copy_bytes(&c.currency), tokens }
}

/// Whether `q` is negative.
fn is_negative(q: &Integer) -> (r: bool)
    ensures
        r == (q@ < 0),
{
    q.less_than(&Integer::from_i128(0))
}

/// Whether `q` is zero.
fn is_zero(q: &Integer) -> (r: bool)
    ensures
        r == (q@ == 0),
{
    q.equals(&Integer::from_i128(0))
}

/// Checks that a quantity lies in the signed 128-bit range.
pub fn check_quantity_range(q: &Integer) -> (r: Result<(), ValueError>)
    ensures
        r is Ok <==> in_quantity_range(q@),
        r is Err ==> r == Err::<(), ValueError>(ValueError::QuantityOutOfBounds),
{
    let low = Integer::from_i128(i128::MIN);
    let high = Integer::from_i128(i128::MAX);
    if q.less_than(&low) || high.less_than(q) {
        Err(ValueError::QuantityOutOfBounds)
    } else {
        Ok(())
    }
}

/// In sorted keys, a key below the `i`-th and different from every earlier
/// key is absent.
pub proof fn lemma_absent_after<T>(s: Seq<(Seq<u8>, T)>, i: int, k: Seq<u8>)
    requires
        sorted_keys(s),
        0 <= i < s.len(),
        bytes_lt(k, s[i].0),
        forall|j: int| 0 <= j < i ==> s[j].0 != k,
    ensures
        find(s, k) is None,
{
    assert forall|j: int| 0 <= j < s.len() implies s[j].0 != k by {
        if j > i {
            lemma_bytes_lt_transitive(k, s[i].0, s[j].0);
            lemma_bytes_lt_irreflexive(k);
        } else if j == i {
            lemma_bytes_lt_irreflexive(k);
        }
    }
    lemma_find_absent(s, k);
}

/// The number of tokens of a prefix is at most that of the whole, and
/// grows by the tokens of each next currency.
pub proof fn lemma_token_count_prefix(v: EntriesV, i: int)
    requires
        0 <= i < v.len(),
    ensures
        token_count(v.subrange(0, i + 1)) == token_count(v.subrange(0, i)) + v[i].1.len(),
        token_count(v.subrange(0, i + 1)) <= token_count(v),
    decreases v.len(),
{
    assert(v.subrange(0, i + 1).drop_last() =~= v.subrange(0, i));
    if i + 1 < v.len() {
        lemma_token_count_prefix(v.drop_last(), i);
        assert(v.drop_last().subrange(0, i + 1) =~= v.subrange(0, i + 1));
    } else {
        assert(v.subrange(0, i + 1) =~= v);
    }
}

/// The number of negative quantities of a prefix is at most that of the
/// whole, and grows by those of each next currency.
pub proof fn lemma_negative_total_prefix(v: EntriesV, i: int)
    requires
        0 <= i < v.len(),
    ensures
        negative_total(v.subrange(0, i + 1)) == negative_total(v.subrange(0, i)) + negatives_in(v[i].1),
        negative_total(v.subrange(0, i + 1)) <= negative_total(v),
    decreases v.len(),
{
    assert(v.subrange(0, i + 1).drop_last() =~= v.subrange(0, i));
    if i + 1 < v.len() {
        lemma_negative_total_prefix(v.drop_last(), i);
        assert(v.drop_last().subrange(0, i + 1) =~= v.subrange(0, i + 1));
    } else {
        assert(v.subrange(0, i + 1) =~= v);
    }
}

/// There are no more negative quantities than quantities.
pub proof fn lemma_negatives_bound(v: EntriesV)
    ensures
        negative_total(v) <= token_count(v),
    decreases v.len(),
{
    if v.len() > 0 {
        lemma_negatives_bound(v.drop_last());
        lemma_negatives_in_bound(v.last().1);
    }
}

/// There are no more negative quantities than tokens.
pub proof fn lemma_negatives_in_bound(ts: TokensV)
    ensures
        negatives_in(ts) <= ts.len(),
    decreases ts.len(),
{
    if ts.len() > 0 {
        lemma_negatives_in_bound(ts.drop_last());
    }
}

/// The number of tokens and the number of negative quantities.
pub fn count_stats(entries: &Vec<CurrencyEntry>) -> (r: (usize, usize))
    requires
        token_count(entries_view(entries@)) <= usize::MAX,
    ensures
        r.0 == token_count(entries_view(entries@)),
        r.1 == negative_total(entries_view(entries@)),
{
    let ghost v = entries_view(entries@);
    let mut total_size: usize = 0;
    let mut negative_count: usize = 0;
    let mut i: usize = 0;
    assert(v.subrange(0, 0) =~= Seq::<(Seq<u8>, TokensV)>::empty());
    while i < entries.len()
        invariant
            v == entries_view(entries@),
            token_count(v) <= usize::MAX,
            i <= entries@.len(),
            total_size == token_count(v.subrange(0, i as int)),
            negative_count == negative_total(v.subrange(0, i as int)),
        decreases entries@.len() - i,
    {
        let tokens = &entries[i].tokens;
        let ghost ts = tokens_view(tokens@);
        proof {
            lemma_token_count_prefix(v, i as int);
            lemma_negative_total_prefix(v, i as int);
            lemma_negatives_bound(v.subrange(0, i + 1));
            lemma_negatives_bound(v.subrange(0, i as int));
            assert(v[i as int].1 == ts);
        }
        let mut j: usize = 0;
        assert(ts.subrange(0, 0) =~= Seq::<(Seq<u8>, int)>::empty());
        while j < tokens.len()
            invariant
                ts == tokens_view(tokens@),
                j <= tokens@.len(),
                total_size == token_count(v.subrange(0, i as int)) + j,
                negative_count == negative_total(v.subrange(0, i as int)) + negatives_in(ts.subrange(0, j as int)),
                token_count(v.subrange(0, i as int)) + ts.len() <= usize::MAX,
                negative_total(v.subrange(0, i as int)) <= token_count(v.subrange(0, i as int)),
            decreases tokens@.len() - j,
        {
            proof {
                assert(ts.subrange(0, j + 1).drop_last() =~= ts.subrange(0, j as int));
                lemma_negatives_in_bound(ts.subrange(0, j as int));
            }
            total_size += 1;
            if is_negative(&tokens[j].quantity) {
                negative_count += 1;
            }
            j += 1;
        }
        assert(ts.subrange(0, j as int) =~= ts);
        i += 1;
    }
    assert(v.subrange(0, i as int) =~= v);
    (total_size, negative_count)
}

impl LedgerValue {
    /// The value with no currency.
    pub fn empty() -> (r: LedgerValue)
        ensures
            r.wf(),
            r@ == Seq::<(Seq<u8>, TokensV)>::empty(),
    {
        let r = LedgerValue { entries: Vec::new(), size: 0, negative_count: 0 };
        assert(r@ =~= Seq::<(Seq<u8>, TokensV)>::empty());
        r
    }

    /// The quantity of token `tok` of currency `ccy`; zero when absent.
    pub fn lookup_coin(&self, ccy: &[u8], tok: &[u8]) -> (r: Integer)
        requires
            self.wf(),
        ensures
            r@ == quantity(self@, ccy@, tok@),
    {
        let ghost v = self@;
        let mut i: usize = 0;
        while i < self.entries.len()
            invariant
                v == self@,
                self.wf(),
                i <= self.entries@.len(),
                forall|j: int| 0 <= j < i ==> v[j].0 != ccy@,
            decreases self.entries@.len() - i,
        {
            let entry = &self.entries[i];
            assert(v[i as int].0 == entry.currency@);
            match order_bytes(entry.currency.as_slice(), ccy) {
                ByteOrder::Equal => {
                    proof {
                        lemma_find_sorted(v, i as int);
                    }
                    return lookup_token(&entry.tokens, tok);
                },
                ByteOrder::Greater => {
                    proof {
                        lemma_absent_after(v, i as int, ccy@);
                    }
                    return Integer::from_i128(0);
                },
                ByteOrder::Less => {
                    proof {
                        lemma_bytes_lt_irreflexive(ccy@);
                    }
                },
            }
            i += 1;
        }
        proof {
            lemma_find_absent(v, ccy@);
        }
        Integer::from_i128(0)
    }
}

/// The quantity of token `tok` among sorted `tokens`; zero when absent.
fn lookup_token(tokens: &Vec<TokenEntry>, tok: &[u8]) -> (r: Integer)
    requires
        sorted_keys(tokens_view(tokens@)),
    ensures
        r@ == token_quantity(tokens_view(tokens@), tok@),
{
    let ghost ts = tokens_view(tokens@);
    let mut i: usize = 0;
    while i < tokens.len()
        invariant
            ts == tokens_view(tokens@),
            sorted_keys(ts),
            i <= tokens@.len(),
            forall|j: int| 0 <= j < i ==> ts[j].0 != tok@,
        decreases tokens@.len() - i,
    {
        let t = &tokens[i];
        assert(ts[i as int] == (t.name@, t.quantity@));
        match order_bytes(t.name.as_slice(), tok) {
            ByteOrder::Equal => {
                proof {
                    lemma_find_sorted(ts, i as int);
                }
                return crate::constant::copy_integer(&t.quantity);
            },
            ByteOrder::Greater => {
                proof {
                    lemma_absent_after(ts, i as int, tok@);
                }
                return Integer::from_i128(0);
            },
            ByteOrder::Less => {
                proof {
                    lemma_bytes_lt_irreflexive(tok@);
                }
            },
        }
        i += 1;
    }
    proof {
        lemma_find_absent(ts, tok@);
    }
    Integer::from_i128(0)
}

/// Keys all below the keys of another sequence, both sorted, make a
/// sorted concatenation.
pub proof fn lemma_sorted_concat<T>(a: Seq<(Seq<u8>, T)>, b: Seq<(Seq<u8>, T)>)
    requires
        sorted_keys(a),
        sorted_keys(b),
        forall|i: int, j: int| 0 <= i < a.len() && 0 <= j < b.len() ==> bytes_lt(#[trigger] a[i].0, #[trigger] b[j].0),
    ensures
        sorted_keys(a + b),
{
    assert forall|i: int, j: int| 0 <= i < j < (a + b).len() implies bytes_lt(#[trigger] (a + b)[i].0, #[trigger] (a + b)[j].0) by {
        if j < a.len() {
            assert((a + b)[i] == a[i] && (a + b)[j] == a[j]);
        } else if i >= a.len() {
            assert((a + b)[i] == b[i - a.len()] && (a + b)[j] == b[j - a.len()]);
        } else {
            assert((a + b)[i] == a[i] && (a + b)[j] == b[j - a.len()]);
        }
    }
}

/// The keys of a sorted sequence from position `i` on are above every key
/// before `i`, and above any key below the `i`-th.
pub proof fn lemma_sorted_split<T>(s: Seq<(Seq<u8>, T)>, i: int, k: Seq<u8>)
    requires
        sorted_keys(s),
        0 <= i <= s.len(),
        i < s.len() ==> bytes_lt(k, s[i].0),
    ensures
        forall|j: int| i <= j < s.len() ==> bytes_lt(k, #[trigger] s[j].0),
        sorted_keys(s.subrange(0, i)),
        sorted_keys(s.subrange(i, s.len() as int)),
{
    assert forall|j: int| i <= j < s.len() implies bytes_lt(k, #[trigger] s[j].0) by {
        if j > i {
            lemma_bytes_lt_transitive(k, s[i].0, s[j].0);
        }
    }
    let p = s.subrange(0, i);
    let q = s.subrange(i, s.len() as int);
    assert forall|x: int, y: int| 0 <= x < y < p.len() implies bytes_lt(#[trigger] p[x].0, #[trigger] p[y].0) by {
        assert(p[x] == s[x] && p[y] == s[y]);
    }
    assert forall|x: int, y: int| 0 <= x < y < q.len() implies bytes_lt(#[trigger] q[x].0, #[trigger] q[y].0) by {
        assert(q[x] == s[x + i] && q[y] == s[y + i]);
    }
}

/// The subrange of sorted keys is sorted.
pub proof fn lemma_sorted_sub<T>(s: Seq<(Seq<u8>, T)>, a: int, b: int)
    requires
        sorted_keys(s),
        0 <= a <= b <= s.len(),
    ensures
        sorted_keys(s.subrange(a, b)),
{
    let p = s.subrange(a, b);
    assert forall|x: int, y: int| 0 <= x < y < p.len() implies bytes_lt(#[trigger] p[x].0, #[trigger] p[y].0) by {
        assert(p[x] == s[x + a] && p[y] == s[y + a]);
    }
}

/// Looking up in a single entry.
pub proof fn lemma_find_single<T>(x: (Seq<u8>, T), k: Seq<u8>)
    ensures
        find(seq![x], k) == (if x.0 == k { Some(x.1) } else { None::<T> }),
{
    assert(seq![x].subrange(1, 1) =~= Seq::<(Seq<u8>, T)>::empty());
    assert(find(Seq::<(Seq<u8>, T)>::empty(), k) is None);
}

/// The number of tokens of a concatenation is the sum.
pub proof fn lemma_token_count_concat(a: EntriesV, b: EntriesV)
    ensures
        token_count(a + b) == token_count(a) + token_count(b),
    decreases b.len(),
{
    if b.len() == 0 {
        assert(a + b =~= a);
    } else {
        lemma_token_count_concat(a, b.drop_last());
        assert((a + b).drop_last() =~= a + b.drop_last());
    }
}

/// The view of a pushed token entry.
proof fn lemma_tokens_view_push(s: Seq<TokenEntry>, x: TokenEntry)
    ensures
        tokens_view(s.push(x)) == tokens_view(s).push((x.name@, x.quantity@)),
{
    assert(tokens_view(s.push(x)) =~= tokens_view(s).push((x.name@, x.quantity@)));
}

/// The view of a pushed currency entry.
proof fn lemma_entries_view_push(s: Seq<CurrencyEntry>, x: CurrencyEntry)
    ensures
        entries_view(s.push(x)) == entries_view(s).push((x.currency@, tokens_view(x.tokens@))),
{
    assert(entries_view(s.push(x)) =~= entries_view(s).push((x.currency@, tokens_view(x.tokens@))));
}

/// The number of leading tokens whose name is below `tok`.
fn tokens_below(tokens: &Vec<TokenEntry>, tok: &[u8]) -> (r: usize)
    ensures
        r <= tokens@.len(),
        forall|j: int| 0 <= j < r ==> bytes_lt(#[trigger] tokens_view(tokens@)[j].0, tok@),
        r < tokens@.len() ==> !bytes_lt(tokens_view(tokens@)[r as int].0, tok@),
{
    let mut i: usize = 0;
    while i < tokens.len()
        invariant
            i <= tokens@.len(),
            forall|j: int| 0 <= j < i ==> bytes_lt(#[trigger] tokens_view(tokens@)[j].0, tok@),
        decreases tokens@.len() - i,
    {
        if order_bytes(tokens[i].name.as_slice(), tok) != ByteOrder::Less {
            return i;
        }
        i += 1;
    }
    i
}

/// The number of leading currencies whose symbol is below `ccy`.
fn currencies_below(entries: &Vec<CurrencyEntry>, ccy: &[u8]) -> (r: usize)
    ensures
        r <= entries@.len(),
        forall|j: int| 0 <= j < r ==> bytes_lt(#[trigger] entries_view(entries@)[j].0, ccy@),
        r < entries@.len() ==> !bytes_lt(entries_view(entries@)[r as int].0, ccy@),
{
    let mut i: usize = 0;
    while i < entries.len()
        invariant
            i <= entries@.len(),
            forall|j: int| 0 <= j < i ==> bytes_lt(#[trigger] entries_view(entries@)[j].0, ccy@),
        decreases entries@.len() - i,
    {
        if order_bytes(entries[i].currency.as_slice(), ccy) != ByteOrder::Less {
            return i;
        }
        i += 1;
    }
    i
}

/// Appends copies of `tokens[from..to]`.
fn copy_tokens_into(out: &mut Vec<TokenEntry>, tokens: &Vec<TokenEntry>, from: usize, to: usize)
    requires
        from <= to <= tokens@.len(),
    ensures
        tokens_view(final(out)@) == tokens_view(old(out)@) + tokens_view(tokens@).subrange(from as int, to as int),
{
    let ghost start = tokens_view(out@);
    let mut i = from;
    while i < to
        invariant
            from <= i <= to <= tokens@.len(),
            tokens_view(out@) == start + tokens_view(tokens@).subrange(from as int, i as int),
        decreases to - i,
    {
        let t = copy_token(&tokens[i]);
        proof {
            lemma_tokens_view_push(out@, t);
        }
        out.push(t);
        i += 1;
        assert(tokens_view(out@) =~= start + tokens_view(tokens@).subrange(from as int, i as int));
    }
}

/// Appends copies of `entries[from..to]`.
fn copy_entries_into(out: &mut Vec<CurrencyEntry>, entries: &Vec<CurrencyEntry>, from: usize, to: usize)
    requires
        from <= to <= entries@.len(),
    ensures
        entries_view(final(out)@) == entries_view(old(out)@) + entries_view(entries@).subrange(from as int, to as int),
{
    let ghost start = entries_view(out@);
    let mut i = from;
    while i < to
        invariant
            from <= i <= to <= entries@.len(),
            entries_view(out@) == start + entries_view(entries@).subrange(from as int, i as int),
        decreases to - i,
    {
        let c = copy_currency(&entries[i]);
        proof {
            lemma_entries_view_push(out@, c);
        }
        out.push(c);
        i += 1;
        assert(entries_view(out@) =~= start + entries_view(entries@).subrange(from as int, i as int));
    }
}

/// The token quantities with token `tok` set to `q`.
pub open spec fn tokens_set(ts: TokensV, tok: Seq<u8>, q: int) -> spec_fn(Seq<u8>) -> int {
    |t: Seq<u8>| if t == tok { q } else { token_quantity(ts, t) }
}

/// `tokens` with token `tok` set to `qty`, removed when `qty` is zero.
fn insert_token(tokens: &Vec<TokenEntry>, tok: &[u8], qty: &Integer) -> (r: Vec<TokenEntry>)
    requires
        sorted_keys(tokens_view(tokens@)),
        forall|i: int| 0 <= i < tokens@.len() ==> #[trigger] tokens_view(tokens@)[i].1 != 0,
    ensures
        sorted_keys(tokens_view(r@)),
        forall|i: int| 0 <= i < r@.len() ==> #[trigger] tokens_view(r@)[i].1 != 0,
        forall|t: Seq<u8>| #[trigger] token_quantity(tokens_view(r@), t) == tokens_set(tokens_view(tokens@), tok@, qty@)(t),
        r@.len() <= tokens@.len() + 1,
{
    let ghost ts = tokens_view(tokens@);
    let n = tokens.len();
    let i = tokens_below(tokens, tok);
    let mut out: Vec<TokenEntry> = Vec::new();
    copy_tokens_into(&mut out, tokens, 0, i);
    let replaced = i < n && order_bytes(tokens[i].name.as_slice(), tok) == ByteOrder::Equal;
    let rest = if replaced { i + 1 } else { i };
    let ghost middle: TokensV = if is_zero_spec(qty@) { Seq::empty() } else { seq![(tok@, qty@)] };
    if !is_zero(qty) {
        let t = TokenEntry { name: slice_to_vec(tok), quantity: crate::constant::copy_integer(qty) };
        proof {
            lemma_tokens_view_push(out@, t);
        }
        out.push(t);
    }
    let ghost mid_out = tokens_view(out@);
    copy_tokens_into(&mut out, tokens, rest, n);
    proof {
        let prefix = ts.subrange(0, i as int);
        let suffix = ts.subrange(rest as int, n as int);
        assert(mid_out =~= prefix + middle);
        assert(tokens_view(out@) =~= prefix + middle + suffix);
        assert(ts =~= prefix + ts.subrange(i as int, n as int));
        lemma_bytes_lt_total(if i < n { ts[i as int].0 } else { tok@ }, tok@);
        if i < n && !replaced {
            assert(bytes_lt(tok@, ts[i as int].0));
        }
        lemma_sorted_sub(ts, 0, i as int);
        lemma_sorted_sub(ts, rest as int, n as int);
        if replaced {
            assert(ts.subrange(i as int, n as int) =~= seq![ts[i as int]] + suffix);
            if rest < n {
                assert(bytes_lt(ts[i as int].0, ts[rest as int].0));
            }
        }
        lemma_sorted_split(ts, rest as int, tok@);
        // sortedness
        lemma_sorted_concat(prefix, middle);
        assert forall|x: int, y: int| 0 <= x < (prefix + middle).len() && 0 <= y < suffix.len() implies bytes_lt(
            #[trigger] (prefix + middle)[x].0,
            #[trigger] suffix[y].0,
        ) by {
            assert(suffix[y] == ts[y + rest]);
            if x < prefix.len() {
                assert((prefix + middle)[x] == ts[x]);
                lemma_bytes_lt_transitive(ts[x].0, tok@, ts[y + rest].0);
            }
        }
        lemma_sorted_concat(prefix + middle, suffix);
        // quantities
        assert forall|t: Seq<u8>| #[trigger] token_quantity(tokens_view(out@), t) == tokens_set(ts, tok@, qty@)(t) by {
            lemma_find_concat(prefix + middle, suffix, t);
            lemma_find_concat(prefix, middle, t);
            lemma_find_concat(prefix, ts.subrange(i as int, n as int), t);
            if !is_zero_spec(qty@) {
                lemma_find_single((tok@, qty@), t);
            }
            if replaced {
                lemma_find_concat(seq![ts[i as int]], suffix, t);
                lemma_find_single(ts[i as int], t);
            }
            if t == tok@ {
                assert forall|j: int| 0 <= j < prefix.len() implies prefix[j].0 != t by {
                    lemma_bytes_lt_irreflexive(t);
                }
                lemma_find_absent(prefix, t);
                assert forall|j: int| 0 <= j < suffix.len() implies suffix[j].0 != t by {
                    assert(suffix[j] == ts[j + rest]);
                    lemma_bytes_lt_irreflexive(t);
                }
                lemma_find_absent(suffix, t);
            }
        }
        assert forall|x: int| 0 <= x < out@.len() implies #[trigger] tokens_view(out@)[x].1 != 0 by {
            if x >= prefix.len() + middle.len() {
                assert(tokens_view(out@)[x] == ts[x - prefix.len() - middle.len() + rest]);
            } else if x < prefix.len() {
                assert(tokens_view(out@)[x] == ts[x]);
            }
        }
    }
    out
}

/// Whether a quantity is zero.
pub open spec fn is_zero_spec(q: int) -> bool {
    q == 0
}

/// A copy of a byte slice.
fn slice_to_vec(b: &[u8]) -> (r: Vec<u8>)
    ensures
        r@ == b@,
{
    let mut out: Vec<u8> = Vec::new();
    let mut i: usize = 0;
    while i < b.len()
        invariant
            i <= b@.len(),
            out@ == b@.subrange(0, i as int),
        decreases b@.len() - i,
    {
        out.push(b[i]);
        i += 1;
        assert(out@ =~= b@.subrange(0, i as int));
    }
    assert(b@.subrange(0, i as int) =~= b@);
    out
}

/// The quantities of `v` with token `tok` of currency `ccy` set to `q`.
pub open spec fn quantities_set(v: EntriesV, ccy: Seq<u8>, tok: Seq<u8>, q: int) -> spec_fn(Seq<u8>, Seq<u8>) -> int {
    |c: Seq<u8>, t: Seq<u8>| if c == ccy && t == tok { q } else { quantity(v, c, t) }
}

/// The tokens of the new entry of an insertion; none when there is none.
pub open spec fn mid_tokens(mid: EntriesV) -> TokensV {
    if mid.len() == 1 {
        mid[0].1
    } else {
        Seq::empty()
    }
}

/// Where an insertion of `q` for `(ccy, tok)` splits `ev`: the currencies
/// below `ccy` before `i`, the `i`-th being `ccy` when `found`, and the
/// entry `mid` that replaces or adds the currency.
pub open spec fn insert_shape(
    ev: EntriesV,
    i: int,
    found: bool,
    mid: EntriesV,
    ccy: Seq<u8>,
    tok: Seq<u8>,
    q: int,
) -> bool {
    &&& entries_wf(ev)
    &&& 0 <= i <= ev.len()
    &&& forall|j: int| 0 <= j < i ==> bytes_lt(#[trigger] ev[j].0, ccy)
    &&& i < ev.len() ==> !bytes_lt(ev[i].0, ccy)
    &&& found <==> (i < ev.len() && ev[i].0 == ccy)
    &&& mid.len() <= 1
    &&& mid.len() == 1 ==> mid[0].0 == ccy && tokens_wf(mid[0].1)
    &&& found ==> forall|t: Seq<u8>| #[trigger] token_quantity(mid_tokens(mid), t) == tokens_set(ev[i].1, tok, q)(t)
    &&& found ==> mid_tokens(mid).len() <= ev[i].1.len() + 1
    &&& !found ==> mid == (if q == 0 { Seq::<(Seq<u8>, TokensV)>::empty() } else { seq![(ccy, seq![(tok, q)])] })
}

/// The currencies after an insertion.
pub open spec fn inserted(ev: EntriesV, i: int, found: bool, mid: EntriesV) -> EntriesV {
    ev.subrange(0, i) + mid + ev.subrange(if found { i + 1 } else { i }, ev.len() as int)
}

/// An insertion keeps the currencies well formed.
proof fn lemma_insert_sorted(ev: EntriesV, i: int, found: bool, mid: EntriesV, ccy: Seq<u8>, tok: Seq<u8>, q: int)
    requires
        insert_shape(ev, i, found, mid, ccy, tok, q),
    ensures
        entries_wf(inserted(ev, i, found, mid)),
{
    let n = ev.len() as int;
    let rest = if found { i + 1 } else { i };
    let prefix = ev.subrange(0, i);
    let suffix = ev.subrange(rest, n);
    let ov = inserted(ev, i, found, mid);
    lemma_bytes_lt_total(if i < n { ev[i].0 } else { ccy }, ccy);
    lemma_sorted_sub(ev, 0, i);
    lemma_sorted_sub(ev, rest, n);
    if found && rest < n {
        assert(bytes_lt(ev[i].0, ev[rest].0));
    }
    lemma_sorted_split(ev, rest, ccy);
    lemma_sorted_concat(prefix, mid);
    assert forall|x: int, y: int| 0 <= x < (prefix + mid).len() && 0 <= y < suffix.len() implies bytes_lt(
        #[trigger] (prefix + mid)[x].0,
        #[trigger] suffix[y].0,
    ) by {
        assert(suffix[y] == ev[y + rest]);
        if x < prefix.len() {
            assert((prefix + mid)[x] == ev[x]);
            lemma_bytes_lt_transitive(ev[x].0, ccy, ev[y + rest].0);
        }
    }
    lemma_sorted_concat(prefix + mid, suffix);
    assert forall|x: int| 0 <= x < ov.len() implies tokens_wf(#[trigger] ov[x].1) by {
        if x >= prefix.len() + mid.len() {
            assert(ov[x] == ev[x - prefix.len() - mid.len() + rest]);
        } else if x < prefix.len() {
            assert(ov[x] == ev[x]);
        } else if !found {
            assert(seq![(tok, q)].len() == 1);
        }
    }
}

/// An insertion sets the one quantity and keeps the others.
proof fn lemma_insert_quantities(ev: EntriesV, i: int, found: bool, mid: EntriesV, ccy: Seq<u8>, tok: Seq<u8>, q: int)
    requires
        insert_shape(ev, i, found, mid, ccy, tok, q),
    ensures
        forall|c: Seq<u8>, t: Seq<u8>| #[trigger] quantity(inserted(ev, i, found, mid), c, t) == quantities_set(ev, ccy, tok, q)(c, t),
{
    assert forall|c: Seq<u8>, t: Seq<u8>| #[trigger] quantity(inserted(ev, i, found, mid), c, t) == quantities_set(ev, ccy, tok, q)(c, t) by {
        lemma_insert_quantity_at(ev, i, found, mid, ccy, tok, q, c, t);
    }
}

/// An insertion at one currency and token.
#[verifier::spinoff_prover]
proof fn lemma_insert_quantity_at(
    ev: EntriesV,
    i: int,
    found: bool,
    mid: EntriesV,
    ccy: Seq<u8>,
    tok: Seq<u8>,
    q: int,
    c: Seq<u8>,
    t: Seq<u8>,
)
    requires
        insert_shape(ev, i, found, mid, ccy, tok, q),
    ensures
        quantity(inserted(ev, i, found, mid), c, t) == quantities_set(ev, ccy, tok, q)(c, t),
{
    let n = ev.len() as int;
    let rest = if found { i + 1 } else { i };
    let prefix = ev.subrange(0, i);
    let suffix = ev.subrange(rest, n);
    let ov = inserted(ev, i, found, mid);
    assert(ov == prefix + mid + suffix);
    assert(ev =~= prefix + ev.subrange(i, n));
    lemma_bytes_lt_total(if i < n { ev[i].0 } else { ccy }, ccy);
    if found {
        assert(ev.subrange(i, n) =~= seq![ev[i]] + suffix);
        if rest < n {
            assert(bytes_lt(ev[i].0, ev[rest].0));
        }
    } else {
        assert(ev.subrange(i, n) == suffix);
    }
    lemma_sorted_split(ev, rest, ccy);
    assert(find(Seq::<(Seq<u8>, TokensV)>::empty(), c) is None);
    assert(find(Seq::<(Seq<u8>, int)>::empty(), t) is None);
    lemma_find_concat(prefix + mid, suffix, c);
    lemma_find_concat(prefix, mid, c);
    lemma_find_concat(prefix, ev.subrange(i, n), c);
    if mid.len() > 0 {
        assert(mid =~= seq![mid[0]]);
        lemma_find_single(mid[0], c);
    } else {
        assert(mid =~= Seq::<(Seq<u8>, TokensV)>::empty());
    }
    if found {
        lemma_find_concat(seq![ev[i]], suffix, c);
        lemma_find_single(ev[i], c);
    }
    if c == ccy {
        assert forall|j: int| 0 <= j < prefix.len() implies prefix[j].0 != c by {
            lemma_bytes_lt_irreflexive(c);
        }
        lemma_find_absent(prefix, c);
        assert forall|j: int| 0 <= j < suffix.len() implies suffix[j].0 != c by {
            assert(suffix[j] == ev[j + rest]);
            lemma_bytes_lt_irreflexive(c);
        }
        lemma_find_absent(suffix, c);
        if found {
            assert(find(ev, c) == Some(ev[i].1));
            assert(token_quantity(mid_tokens(mid), t) == tokens_set(ev[i].1, tok, q)(t));
            if mid.len() > 0 {
                assert(find(ov, c) == Some(mid[0].1));
            } else {
                assert(find(ov, c) is None);
            }
        } else {
            assert(find(ev, c) is None);
            if q != 0 {
                lemma_find_single((tok, q), t);
                assert(find(ov, c) == Some(seq![(tok, q)]));
            } else {
                assert(find(ov, c) is None);
            }
        }
    } else {
        if mid.len() > 0 {
            assert(find(mid, c) is None);
        }
        assert(find(ov, c) == find(ev, c));
    }
}

/// An insertion adds at most one token.
proof fn lemma_insert_count(ev: EntriesV, i: int, found: bool, mid: EntriesV, ccy: Seq<u8>, tok: Seq<u8>, q: int)
    requires
        insert_shape(ev, i, found, mid, ccy, tok, q),
    ensures
        token_count(inserted(ev, i, found, mid)) <= token_count(ev) + 1,
{
    let n = ev.len() as int;
    let rest = if found { i + 1 } else { i };
    let prefix = ev.subrange(0, i);
    let suffix = ev.subrange(rest, n);
    assert(ev =~= prefix + ev.subrange(i, n));
    assert(inserted(ev, i, found, mid) == prefix + mid + suffix);
    assert(token_count(Seq::<(Seq<u8>, TokensV)>::empty()) == 0);
    lemma_token_count_concat(prefix + mid, suffix);
    lemma_token_count_concat(prefix, mid);
    lemma_token_count_concat(prefix, ev.subrange(i, n));
    if mid.len() > 0 {
        assert(mid =~= seq![mid[0]]);
        lemma_token_count_single(mid[0]);
    } else {
        assert(mid =~= Seq::<(Seq<u8>, TokensV)>::empty());
    }
    if found {
        assert(ev.subrange(i, n) =~= seq![ev[i]] + suffix);
        lemma_token_count_concat(seq![ev[i]], suffix);
        lemma_token_count_single(ev[i]);
    } else {
        assert(ev.subrange(i, n) =~= suffix);
        if mid.len() > 0 {
            assert(seq![(tok, q)].len() == 1);
        }
    }
}

/// The number of tokens of a single currency.
proof fn lemma_token_count_single(x: (Seq<u8>, TokensV))
    ensures
        token_count(seq![x]) == x.1.len(),
{
    assert(seq![x].drop_last() =~= Seq::<(Seq<u8>, TokensV)>::empty());
    assert(token_count(Seq::<(Seq<u8>, TokensV)>::empty()) == 0);
}

impl LedgerValue {
    /// `v` with token `tok` of currency `ccy` set to `qty`: the token is
    /// removed when `qty` is zero, and a currency left without token too.
    pub fn insert_coin(ccy: &[u8], tok: &[u8], qty: &Integer, v: &LedgerValue) -> (r: LedgerValue)
        requires
            v.wf(),
            v.size < usize::MAX,
        ensures
            r.wf(),
            forall|c: Seq<u8>, t: Seq<u8>| #[trigger] quantity(r@, c, t) == quantities_set(v@, ccy@, tok@, qty@)(c, t),
    {
        let ghost ev = v@;
        let n = v.entries.len();
        let i = currencies_below(&v.entries, ccy);
        let mut out: Vec<CurrencyEntry> = Vec::new();
        copy_entries_into(&mut out, &v.entries, 0, i);
        let found = i < n && order_bytes(v.entries[i].currency.as_slice(), ccy) == ByteOrder::Equal;
        let rest = if found { i + 1 } else { i };
        let ghost before_mid = entries_view(out@);
        let ghost mut mid: EntriesV = Seq::empty();
        if found {
            let entry = &v.entries[i];
            proof {
                assert(ev[i as int] == (entry.currency@, tokens_view(entry.tokens@)));
                assert(tokens_wf(ev[i as int].1));
            }
            let tokens = insert_token(&entry.tokens, tok, qty);
            if tokens.len() > 0 {
                let c = CurrencyEntry { currency: copy_bytes(&entry.currency), tokens };
                proof {
                    lemma_entries_view_push(out@, c);
                    mid = seq![(c.currency@, tokens_view(c.tokens@))];
                    assert(mid_tokens(mid) == tokens_view(tokens@));
                    assert forall|t: Seq<u8>| #[trigger] token_quantity(mid_tokens(mid), t) == tokens_set(ev[i as int].1, tok@, qty@)(t) by {
                        assert(token_quantity(tokens_view(tokens@), t) == tokens_set(tokens_view(entry.tokens@), tok@, qty@)(t));
                    }
                }
                out.push(c);
            } else {
                proof {
                    assert(tokens_view(tokens@) =~= Seq::<(Seq<u8>, int)>::empty());
                    assert(mid_tokens(mid) =~= tokens_view(tokens@));
                    assert forall|t: Seq<u8>| #[trigger] token_quantity(mid_tokens(mid), t) == tokens_set(ev[i as int].1, tok@, qty@)(t) by {
                        assert(token_quantity(tokens_view(tokens@), t) == tokens_set(tokens_view(entry.tokens@), tok@, qty@)(t));
                    }
                }
            }
        } else if !is_zero(qty) {
            let t = TokenEntry { name: slice_to_vec(tok), quantity: crate::constant::copy_integer(qty) };
            let tokens = vec![t];
            let c = CurrencyEntry { currency: slice_to_vec(ccy), tokens };
            proof {
                lemma_entries_view_push(out@, c);
                assert(tokens_view(c.tokens@) =~= seq![(tok@, qty@)]);
                mid = seq![(ccy@, seq![(tok@, qty@)])];
            }
            out.push(c);
        }
        let ghost mid_out = entries_view(out@);
        copy_entries_into(&mut out, &v.entries, rest, n);
        let ghost ov = entries_view(out@);
        proof {
            let prefix = ev.subrange(0, i as int);
            let suffix = ev.subrange(rest as int, n as int);
            assert(before_mid =~= prefix);
            assert(mid_out =~= prefix + mid);
            assert(ov =~= prefix + mid + suffix);
            lemma_insert_sorted(ev, i as int, found, mid, ccy@, tok@, qty@);
            lemma_insert_quantities(ev, i as int, found, mid, ccy@, tok@, qty@);
            lemma_insert_count(ev, i as int, found, mid, ccy@, tok@, qty@);
        }
        let (size, negative_count) = count_stats(&out);
        LedgerValue { entries: out, size, negative_count }
    }
}

/// Whether the sum of two quantities of token `t` present in both leaves
/// the signed 128-bit range.
pub open spec fn token_overflows(a: TokensV, b: TokensV, t: Seq<u8>) -> bool {
    &&& find(a, t) is Some
    &&& find(b, t) is Some
    &&& !in_quantity_range(token_quantity(a, t) + token_quantity(b, t))
}

/// Whether some token present in both has a sum outside the signed 128-bit
/// range.
pub open spec fn tokens_overflow(a: TokensV, b: TokensV) -> bool {
    exists|t: Seq<u8>| #[trigger] token_overflows(a, b, t)
}

/// Whether currency `c` is present in both with a token whose sum leaves
/// the signed 128-bit range.
pub open spec fn currency_overflows(a: EntriesV, b: EntriesV, c: Seq<u8>) -> bool {
    &&& find(a, c) is Some
    &&& find(b, c) is Some
    &&& tokens_overflow(find(a, c)->Some_0, find(b, c)->Some_0)
}

/// Whether some currency present in both has such a token.
pub open spec fn union_overflows(a: EntriesV, b: EntriesV) -> bool {
    exists|c: Seq<u8>| #[trigger] currency_overflows(a, b, c)
}

/// Whether every quantity is nonzero.
pub open spec fn nonzero_quantities(ts: TokensV) -> bool {
    forall|i: int| 0 <= i < ts.len() ==> #[trigger] ts[i].1 != 0
}

/// A sorted sequence splits into its first entry and the rest.
pub proof fn lemma_find_first<T>(s: Seq<(Seq<u8>, T)>, k: Seq<u8>)
    requires
        sorted_keys(s),
        s.len() > 0,
    ensures
        find(s, k) == (if k == s[0].0 { Some(s[0].1) } else { find(s.subrange(1, s.len() as int), k) }),
        k == s[0].0 ==> find(s.subrange(1, s.len() as int), k) is None,
{
    if k == s[0].0 {
        let rest = s.subrange(1, s.len() as int);
        assert forall|j: int| 0 <= j < rest.len() implies rest[j].0 != k by {
            assert(rest[j] == s[j + 1]);
            assert(bytes_lt(s[0].0, s[j + 1].0));
            lemma_bytes_lt_irreflexive(k);
        }
        lemma_find_absent(rest, k);
    }
}

/// Appending an entry above every key.
pub proof fn lemma_find_push<T>(s: Seq<(Seq<u8>, T)>, x: (Seq<u8>, T), k: Seq<u8>)
    requires
        forall|j: int| 0 <= j < s.len() ==> s[j].0 != x.0,
    ensures
        find(s.push(x), k) == (if k == x.0 { Some(x.1) } else { find(s, k) }),
{
    assert(s.push(x) =~= s + seq![x]);
    lemma_find_concat(s, seq![x], k);
    lemma_find_single(x, k);
    if k == x.0 {
        lemma_find_absent(s, k);
    }
}

/// The last key of sorted keys is above every other.
pub proof fn lemma_sorted_last<T>(s: Seq<(Seq<u8>, T)>, k: Seq<u8>)
    requires
        sorted_keys(s),
        s.len() > 0,
        bytes_lt(s.last().0, k),
    ensures
        forall|j: int| 0 <= j < s.len() ==> bytes_lt(#[trigger] s[j].0, k),
        forall|j: int| 0 <= j < s.len() ==> s[j].0 != k,
        sorted_keys(s.push((k, arbitrary()))) || true,
{
    assert forall|j: int| 0 <= j < s.len() implies bytes_lt(#[trigger] s[j].0, k) by {
        if j < s.len() - 1 {
            lemma_bytes_lt_transitive(s[j].0, s.last().0, k);
        }
    }
    assert forall|j: int| 0 <= j < s.len() implies s[j].0 != k by {
        assert(bytes_lt(s[j].0, k));
        lemma_bytes_lt_irreflexive(k);
    }
}

/// Pushing an entry above the last key keeps keys sorted.
pub proof fn lemma_sorted_push<T>(s: Seq<(Seq<u8>, T)>, x: (Seq<u8>, T))
    requires
        sorted_keys(s),
        s.len() > 0 ==> bytes_lt(s.last().0, x.0),
    ensures
        sorted_keys(s.push(x)),
        forall|j: int| 0 <= j < s.len() ==> s[j].0 != x.0,
{
    if s.len() > 0 {
        lemma_sorted_last(s, x.0);
    }
    let p = s.push(x);
    assert forall|a: int, b: int| 0 <= a < b < p.len() implies bytes_lt(#[trigger] p[a].0, #[trigger] p[b].0) by {
        if b == s.len() {
            assert(p[a] == s[a]);
        } else {
            assert(p[a] == s[a] && p[b] == s[b]);
        }
    }
}

/// The view of a token entry at an index.
proof fn lemma_tokens_view_at(s: Seq<TokenEntry>, i: int)
    requires
        0 <= i < s.len(),
    ensures
        tokens_view(s)[i] == (s[i].name@, s[i].quantity@),
        tokens_view(s).len() == s.len(),
{
}

/// The tokens of both, quantities of a token in both summed; an error when
/// such a sum leaves the signed 128-bit range.
fn merge_tokens(t1: &Vec<TokenEntry>, t2: &Vec<TokenEntry>) -> (r: Result<Vec<TokenEntry>, ValueError>)
    requires
        sorted_keys(tokens_view(t1@)),
        sorted_keys(tokens_view(t2@)),
        nonzero_quantities(tokens_view(t1@)),
        nonzero_quantities(tokens_view(t2@)),
    ensures
        match r {
            Ok(m) => {
                &&& sorted_keys(tokens_view(m@))
                &&& nonzero_quantities(tokens_view(m@))
                &&& forall|t: Seq<u8>| #[trigger] token_quantity(tokens_view(m@), t) == token_quantity(tokens_view(t1@), t)
                    + token_quantity(tokens_view(t2@), t)
                &&& !tokens_overflow(tokens_view(t1@), tokens_view(t2@))
                &&& m@.len() <= t1@.len() + t2@.len()
            },
            Err(e) => e == ValueError::UnionValueQuantityOutOfBounds && tokens_overflow(tokens_view(t1@), tokens_view(t2@)),
        },
{
    let ghost a = tokens_view(t1@);
    let ghost b = tokens_view(t2@);
    let n1 = t1.len();
    let n2 = t2.len();
    let mut out: Vec<TokenEntry> = Vec::new();
    let mut i: usize = 0;
    let mut j: usize = 0;
    proof {
        assert(a.subrange(0, n1 as int) =~= a);
        assert(b.subrange(0, n2 as int) =~= b);
        assert forall|t: Seq<u8>| #[trigger] token_quantity(tokens_view(out@), t) == 0 by {
            assert(tokens_view(out@) =~= Seq::<(Seq<u8>, int)>::empty());
        }
    }
    while i < n1 || j < n2
        invariant
            a == tokens_view(t1@),
            b == tokens_view(t2@),
            n1 == t1@.len(),
            n2 == t2@.len(),
            sorted_keys(a),
            sorted_keys(b),
            nonzero_quantities(a),
            nonzero_quantities(b),
            i <= n1,
            j <= n2,
            out@.len() <= i + j,
            sorted_keys(tokens_view(out@)),
            nonzero_quantities(tokens_view(out@)),
            out@.len() > 0 && i < n1 ==> bytes_lt(tokens_view(out@).last().0, a[i as int].0),
            out@.len() > 0 && j < n2 ==> bytes_lt(tokens_view(out@).last().0, b[j as int].0),
            forall|t: Seq<u8>| #[trigger] token_quantity(tokens_view(out@), t) + token_quantity(a.subrange(i as int, n1 as int), t)
                + token_quantity(b.subrange(j as int, n2 as int), t) == token_quantity(a, t) + token_quantity(b, t),
            forall|t: Seq<u8>| #[trigger] token_overflows(a, b, t) ==> find(a.subrange(i as int, n1 as int), t) is Some
                && find(b.subrange(j as int, n2 as int), t) is Some,
        decreases n1 + n2 - i - j,
    {
        let ghost ov = tokens_view(out@);
        let ghost ra = a.subrange(i as int, n1 as int);
        let ghost rb = b.subrange(j as int, n2 as int);
        let order = if i == n1 {
            ByteOrder::Greater
        } else if j == n2 {
            ByteOrder::Less
        } else {
            order_bytes(t1[i].name.as_slice(), t2[j].name.as_slice())
        };
        proof {
            lemma_sorted_sub(a, i as int, n1 as int);
            lemma_sorted_sub(b, j as int, n2 as int);
            if i < n1 {
                lemma_tokens_view_at(t1@, i as int);
                assert(ra.subrange(1, ra.len() as int) =~= a.subrange(i + 1, n1 as int));
            }
            if j < n2 {
                lemma_tokens_view_at(t2@, j as int);
                assert(rb.subrange(1, rb.len() as int) =~= b.subrange(j + 1, n2 as int));
            }
        }
        if order == ByteOrder::Less {
            let x = copy_token(&t1[i]);
            proof {
                let e = (x.name@, x.quantity@);
                assert(e == ra[0]);
                lemma_sorted_push(ov, e);
                lemma_tokens_view_push(out@, x);
                assert forall|t: Seq<u8>| #[trigger] token_quantity(ov.push(e), t) + token_quantity(a.subrange(i + 1, n1 as int), t)
                    + token_quantity(rb, t) == token_quantity(a, t) + token_quantity(b, t) by {
                    assert(token_quantity(ov, t) + token_quantity(ra, t) + token_quantity(rb, t) == token_quantity(a, t)
                        + token_quantity(b, t));
                    lemma_find_push(ov, e, t);
                    lemma_find_absent(ov, e.0);
                    lemma_find_first(ra, t);
                }
                assert forall|t: Seq<u8>| #[trigger] token_overflows(a, b, t) implies find(a.subrange(i + 1, n1 as int), t) is Some
                    && find(rb, t) is Some by {
                    lemma_find_first(ra, t);
                    if t == e.0 && j < n2 {
                        lemma_sorted_split(b, j as int, t);
                        assert forall|k: int| 0 <= k < rb.len() implies rb[k].0 != t by {
                            assert(rb[k] == b[k + j]);
                            lemma_bytes_lt_irreflexive(t);
                        }
                        lemma_find_absent(rb, t);
                    }
                    if j == n2 {
                        assert(rb.len() == 0);
                    }
                }
                if i + 1 < n1 {
                    assert(bytes_lt(a[i as int].0, a[i + 1].0));
                }
                assert forall|k: int| 0 <= k < ov.len() + 1 implies #[trigger] ov.push(e)[k].1 != 0 by {
                    if k < ov.len() {
                        assert(ov.push(e)[k] == ov[k]);
                    }
                }
            }
            out.push(x);
            i += 1;
        } else if order == ByteOrder::Greater {
            let x = copy_token(&t2[j]);
            proof {
                let e = (x.name@, x.quantity@);
                assert(e == rb[0]);
                lemma_sorted_push(ov, e);
                lemma_tokens_view_push(out@, x);
                assert forall|t: Seq<u8>| #[trigger] token_quantity(ov.push(e), t) + token_quantity(ra, t)
                    + token_quantity(b.subrange(j + 1, n2 as int), t) == token_quantity(a, t) + token_quantity(b, t) by {
                    assert(token_quantity(ov, t) + token_quantity(ra, t) + token_quantity(rb, t) == token_quantity(a, t)
                        + token_quantity(b, t));
                    lemma_find_push(ov, e, t);
                    lemma_find_absent(ov, e.0);
                    lemma_find_first(rb, t);
                }
                assert forall|t: Seq<u8>| #[trigger] token_overflows(a, b, t) implies find(ra, t) is Some
                    && find(b.subrange(j + 1, n2 as int), t) is Some by {
                    lemma_find_first(rb, t);
                    if t == e.0 && i < n1 {
                        lemma_sorted_split(a, i as int, t);
                        assert forall|k: int| 0 <= k < ra.len() implies ra[k].0 != t by {
                            assert(ra[k] == a[k + i]);
                            lemma_bytes_lt_irreflexive(t);
                        }
                        lemma_find_absent(ra, t);
                    }
                    if i == n1 {
                        assert(ra.len() == 0);
                    }
                }
                if j + 1 < n2 {
                    assert(bytes_lt(b[j as int].0, b[j + 1].0));
                }
                assert forall|k: int| 0 <= k < ov.len() + 1 implies #[trigger] ov.push(e)[k].1 != 0 by {
                    if k < ov.len() {
                        assert(ov.push(e)[k] == ov[k]);
                    }
                }
            }
            out.push(x);
            j += 1;
        } else {
            let sum = t1[i].quantity.add(&t2[j].quantity);
            let ghost key = a[i as int].0;
            proof {
                lemma_find_first(ra, key);
                lemma_find_first(rb, key);
                assert(b[j as int].0 == key);
            }
            if check_quantity_range(&sum).is_err() {
                proof {
                    lemma_find_sorted(a, i as int);
                    lemma_find_sorted(b, j as int);
                    assert(token_overflows(a, b, key));
                }
                return Err(ValueError::UnionValueQuantityOutOfBounds);
            }
            let ghost pushed = !is_zero_spec(sum@);
            if !is_zero(&sum) {
                let x = TokenEntry { name: copy_bytes(&t1[i].name), quantity: sum };
                proof {
                    let e = (x.name@, x.quantity@);
                    lemma_sorted_push(ov, e);
                    lemma_tokens_view_push(out@, x);
                    assert forall|k: int| 0 <= k < ov.len() + 1 implies #[trigger] ov.push(e)[k].1 != 0 by {
                        if k < ov.len() {
                            assert(ov.push(e)[k] == ov[k]);
                        }
                    }
                }
                out.push(x);
            }
            proof {
                let nv = tokens_view(out@);
                if ov.len() > 0 {
                    lemma_sorted_last(ov, key);
                }
                lemma_find_absent(ov, key);
                if !pushed && ov.len() > 0 {
                    if i + 1 < n1 {
                        assert(bytes_lt(a[i as int].0, a[i + 1].0));
                        lemma_bytes_lt_transitive(ov.last().0, key, a[i + 1].0);
                    }
                    if j + 1 < n2 {
                        assert(bytes_lt(b[j as int].0, b[j + 1].0));
                        lemma_bytes_lt_transitive(ov.last().0, key, b[j + 1].0);
                    }
                }
                assert forall|t: Seq<u8>| #[trigger] token_quantity(nv, t) + token_quantity(a.subrange(i + 1, n1 as int), t)
                    + token_quantity(b.subrange(j + 1, n2 as int), t) == token_quantity(a, t) + token_quantity(b, t) by {
                    assert(token_quantity(ov, t) + token_quantity(ra, t) + token_quantity(rb, t) == token_quantity(a, t)
                        + token_quantity(b, t));
                    lemma_find_first(ra, t);
                    lemma_find_first(rb, t);
                    if pushed {
                        lemma_find_push(ov, (key, sum@), t);
                        assert(nv == ov.push((key, sum@)));
                    } else {
                        assert(nv == ov);
                    }
                }
                assert forall|t: Seq<u8>| #[trigger] token_overflows(a, b, t) implies find(a.subrange(i + 1, n1 as int), t) is Some
                    && find(b.subrange(j + 1, n2 as int), t) is Some by {
                    lemma_find_first(ra, t);
                    lemma_find_first(rb, t);
                    if t == key {
                        lemma_find_sorted(a, i as int);
                        lemma_find_sorted(b, j as int);
                    }
                }
                if i + 1 < n1 {
                    assert(bytes_lt(a[i as int].0, a[i + 1].0));
                }
                if j + 1 < n2 {
                    assert(bytes_lt(b[j as int].0, b[j + 1].0));
                }
            }
            i += 1;
            j += 1;
        }
    }
    proof {
        assert(a.subrange(i as int, n1 as int) =~= Seq::<(Seq<u8>, int)>::empty());
        assert(b.subrange(j as int, n2 as int) =~= Seq::<(Seq<u8>, int)>::empty());
        assert(find(Seq::<(Seq<u8>, int)>::empty(), arbitrary::<Seq<u8>>()) is None);
        assert forall|t: Seq<u8>| !#[trigger] token_overflows(a, b, t) by {
            assert(find(Seq::<(Seq<u8>, int)>::empty(), t) is None);
        }
        assert forall|t: Seq<u8>| #[trigger] token_quantity(tokens_view(out@), t) == token_quantity(a, t) + token_quantity(b, t) by {
            assert(find(Seq::<(Seq<u8>, int)>::empty(), t) is None);
        }
    }
    Ok(out)
}

/// The number of tokens of a sequence of currencies is that of the first
/// plus that of the rest.
proof fn lemma_token_count_first(v: EntriesV)
    requires
        v.len() > 0,
    ensures
        token_count(v) == v[0].1.len() + token_count(v.subrange(1, v.len() as int)),
{
    assert(v =~= seq![v[0]] + v.subrange(1, v.len() as int));
    lemma_token_count_concat(seq![v[0]], v.subrange(1, v.len() as int));
    lemma_token_count_single(v[0]);
}

/// The view of a currency entry at an index.
proof fn lemma_entries_view_at(s: Seq<CurrencyEntry>, i: int)
    requires
        0 <= i < s.len(),
    ensures
        entries_view(s)[i] == (s[i].currency@, tokens_view(s[i].tokens@)),
        entries_view(s).len() == s.len(),
{
}

impl LedgerValue {
    /// The value whose quantities are the sums of those of `v1` and `v2`;
    /// an error when a sum leaves the signed 128-bit range.
    pub fn union_value(v1: &LedgerValue, v2: &LedgerValue) -> (r: Result<LedgerValue, ValueError>)
        requires
            v1.wf(),
            v2.wf(),
            v1.size + v2.size <= usize::MAX,
        ensures
            match r {
                Ok(v) => {
                    &&& v.wf()
                    &&& forall|c: Seq<u8>, t: Seq<u8>| #[trigger] quantity(v@, c, t) == quantity(v1@, c, t) + quantity(v2@, c, t)
                    &&& !union_overflows(v1@, v2@)
                },
                Err(e) => e == ValueError::UnionValueQuantityOutOfBounds && union_overflows(v1@, v2@),
            },
    {
        let ghost a = v1@;
        let ghost b = v2@;
        let e1 = &v1.entries;
        let e2 = &v2.entries;
        let n1 = e1.len();
        let n2 = e2.len();
        let mut out: Vec<CurrencyEntry> = Vec::new();
        let mut i: usize = 0;
        let mut j: usize = 0;
        proof {
            assert(a.subrange(0, n1 as int) =~= a);
            assert(b.subrange(0, n2 as int) =~= b);
            assert(entries_view(out@) =~= Seq::<(Seq<u8>, TokensV)>::empty());
            assert(find(Seq::<(Seq<u8>, TokensV)>::empty(), arbitrary::<Seq<u8>>()) is None);
            assert forall|c: Seq<u8>, t: Seq<u8>| #[trigger] quantity(entries_view(out@), c, t) == 0 by {
                assert(find(Seq::<(Seq<u8>, TokensV)>::empty(), c) is None);
            }
        }
        while i < n1 || j < n2
            invariant
                a == entries_view(e1@),
                b == entries_view(e2@),
                e1 == &v1.entries,
                e2 == &v2.entries,
                n1 == e1@.len(),
                n2 == e2@.len(),
                entries_wf(a),
                entries_wf(b),
                token_count(a) + token_count(b) <= usize::MAX,
                i <= n1,
                j <= n2,
                entries_wf(entries_view(out@)),
                token_count(entries_view(out@)) + token_count(a.subrange(i as int, n1 as int))
                    + token_count(b.subrange(j as int, n2 as int)) <= token_count(a) + token_count(b),
                out@.len() > 0 && i < n1 ==> bytes_lt(entries_view(out@).last().0, a[i as int].0),
                out@.len() > 0 && j < n2 ==> bytes_lt(entries_view(out@).last().0, b[j as int].0),
                forall|c: Seq<u8>, t: Seq<u8>| #[trigger] quantity(entries_view(out@), c, t) + quantity(a.subrange(i as int, n1 as int), c, t)
                    + quantity(b.subrange(j as int, n2 as int), c, t) == quantity(a, c, t) + quantity(b, c, t),
                forall|c: Seq<u8>| #[trigger] currency_overflows(a, b, c) ==> find(a.subrange(i as int, n1 as int), c) is Some
                    && find(b.subrange(j as int, n2 as int), c) is Some,
            decreases n1 + n2 - i - j,
        {
            let ghost ov = entries_view(out@);
            let ghost ra = a.subrange(i as int, n1 as int);
            let ghost rb = b.subrange(j as int, n2 as int);
            let order = if i == n1 {
                ByteOrder::Greater
            } else if j == n2 {
                ByteOrder::Less
            } else {
                order_bytes(e1[i].currency.as_slice(), e2[j].currency.as_slice())
            };
            proof {
                lemma_sorted_sub(a, i as int, n1 as int);
                lemma_sorted_sub(b, j as int, n2 as int);
                if i < n1 {
                    lemma_entries_view_at(e1@, i as int);
                    assert(ra.subrange(1, ra.len() as int) =~= a.subrange(i + 1, n1 as int));
                    lemma_token_count_first(ra);
                }
                if j < n2 {
                    lemma_entries_view_at(e2@, j as int);
                    assert(rb.subrange(1, rb.len() as int) =~= b.subrange(j + 1, n2 as int));
                    lemma_token_count_first(rb);
                }
            }
            if order == ByteOrder::Less {
                let x = copy_currency(&e1[i]);
                proof {
                    let e = (x.currency@, tokens_view(x.tokens@));
                    assert(e == ra[0]);
                    lemma_sorted_push(ov, e);
                    lemma_entries_view_push(out@, x);
                    assert(ov.push(e).drop_last() =~= ov);
                    assert forall|c: Seq<u8>, t: Seq<u8>| #[trigger] quantity(ov.push(e), c, t) + quantity(
                        a.subrange(i + 1, n1 as int),
                        c,
                        t,
                    ) + quantity(rb, c, t) == quantity(a, c, t) + quantity(b, c, t) by {
                        assert(quantity(ov, c, t) + quantity(ra, c, t) + quantity(rb, c, t) == quantity(a, c, t) + quantity(b, c, t));
                        lemma_find_push(ov, e, c);
                        lemma_find_absent(ov, e.0);
                        lemma_find_first(ra, c);
                    }
                    assert forall|c: Seq<u8>| #[trigger] currency_overflows(a, b, c) implies find(a.subrange(i + 1, n1 as int), c) is Some
                        && find(rb, c) is Some by {
                        lemma_find_first(ra, c);
                        if c == e.0 && j < n2 {
                            lemma_sorted_split(b, j as int, c);
                            assert forall|k: int| 0 <= k < rb.len() implies rb[k].0 != c by {
                                assert(rb[k] == b[k + j]);
                                lemma_bytes_lt_irreflexive(c);
                            }
                            lemma_find_absent(rb, c);
                        }
                        if j == n2 {
                            assert(rb.len() == 0);
                        }
                    }
                    if i + 1 < n1 {
                        assert(bytes_lt(a[i as int].0, a[i + 1].0));
                    }
                    assert forall|k: int| 0 <= k < ov.len() + 1 implies tokens_wf(#[trigger] ov.push(e)[k].1) by {
                        if k < ov.len() {
                            assert(ov.push(e)[k] == ov[k]);
                        }
                    }
                }
                out.push(x);
                i += 1;
            } else if order == ByteOrder::Greater {
                let x = copy_currency(&e2[j]);
                proof {
                    let e = (x.currency@, tokens_view(x.tokens@));
                    assert(e == rb[0]);
                    lemma_sorted_push(ov, e);
                    lemma_entries_view_push(out@, x);
                    assert(ov.push(e).drop_last() =~= ov);
                    assert forall|c: Seq<u8>, t: Seq<u8>| #[trigger] quantity(ov.push(e), c, t) + quantity(ra, c, t) + quantity(
                        b.subrange(j + 1, n2 as int),
                        c,
                        t,
                    ) == quantity(a, c, t) + quantity(b, c, t) by {
                        assert(quantity(ov, c, t) + quantity(ra, c, t) + quantity(rb, c, t) == quantity(a, c, t) + quantity(b, c, t));
                        lemma_find_push(ov, e, c);
                        lemma_find_absent(ov, e.0);
                        lemma_find_first(rb, c);
                    }
                    assert forall|c: Seq<u8>| #[trigger] currency_overflows(a, b, c) implies find(ra, c) is Some
                        && find(b.subrange(j + 1, n2 as int), c) is Some by {
                        lemma_find_first(rb, c);
                        if c == e.0 && i < n1 {
                            lemma_sorted_split(a, i as int, c);
                            assert forall|k: int| 0 <= k < ra.len() implies ra[k].0 != c by {
                                assert(ra[k] == a[k + i]);
                                lemma_bytes_lt_irreflexive(c);
                            }
                            lemma_find_absent(ra, c);
                        }
                        if i == n1 {
                            assert(ra.len() == 0);
                        }
                    }
                    if j + 1 < n2 {
                        assert(bytes_lt(b[j as int].0, b[j + 1].0));
                    }
                    assert forall|k: int| 0 <= k < ov.len() + 1 implies tokens_wf(#[trigger] ov.push(e)[k].1) by {
                        if k < ov.len() {
                            assert(ov.push(e)[k] == ov[k]);
                        }
                    }
                }
                out.push(x);
                j += 1;
            } else {
                let ghost key = a[i as int].0;
                proof {
                    lemma_find_first(ra, key);
                    lemma_find_first(rb, key);
                    assert(b[j as int].0 == key);
                    assert(tokens_wf(a[i as int].1));
                    assert(tokens_wf(b[j as int].1));
                }
                let merged = match merge_tokens(&e1[i].tokens, &e2[j].tokens) {
                    Ok(m) => m,
                    Err(e) => {
                        proof {
                            lemma_find_sorted(a, i as int);
                            lemma_find_sorted(b, j as int);
                            assert(currency_overflows(a, b, key));
                        }
                        return Err(e);
                    },
                };
                let ghost mv = tokens_view(merged@);
                let ghost pushed = merged@.len() > 0;
                proof {
                    if ov.len() > 0 {
                        lemma_sorted_last(ov, key);
                    }
                    lemma_find_absent(ov, key);
                }
                if merged.len() > 0 {
                    let x = CurrencyEntry { currency: copy_bytes(&e1[i].currency), tokens: merged };
                    proof {
                        let e = (x.currency@, tokens_view(x.tokens@));
                        lemma_sorted_push(ov, e);
                        lemma_entries_view_push(out@, x);
                        assert(ov.push(e).drop_last() =~= ov);
                        assert forall|k: int| 0 <= k < ov.len() + 1 implies tokens_wf(#[trigger] ov.push(e)[k].1) by {
                            if k < ov.len() {
                                assert(ov.push(e)[k] == ov[k]);
                            }
                        }
                    }
                    out.push(x);
                }
                proof {
                    let nv = entries_view(out@);
                    if !pushed {
                        assert(nv == ov);
                        assert(mv =~= Seq::<(Seq<u8>, int)>::empty());
                    } else {
                        assert(nv == ov.push((key, mv)));
                    }
                    assert forall|c: Seq<u8>, t: Seq<u8>| #[trigger] quantity(nv, c, t) + quantity(a.subrange(i + 1, n1 as int), c, t)
                        + quantity(b.subrange(j + 1, n2 as int), c, t) == quantity(a, c, t) + quantity(b, c, t) by {
                        assert(quantity(ov, c, t) + quantity(ra, c, t) + quantity(rb, c, t) == quantity(a, c, t) + quantity(b, c, t));
                        lemma_find_first(ra, c);
                        lemma_find_first(rb, c);
                        if pushed {
                            lemma_find_push(ov, (key, mv), c);
                        }
                        assert(token_quantity(mv, t) == token_quantity(a[i as int].1, t) + token_quantity(b[j as int].1, t));
                        assert(find(Seq::<(Seq<u8>, int)>::empty(), t) is None);
                    }
                    assert forall|c: Seq<u8>| #[trigger] currency_overflows(a, b, c) implies find(a.subrange(i + 1, n1 as int), c) is Some
                        && find(b.subrange(j + 1, n2 as int), c) is Some by {
                        lemma_find_first(ra, c);
                        lemma_find_first(rb, c);
                        if c == key {
                            lemma_find_sorted(a, i as int);
                            lemma_find_sorted(b, j as int);
                        }
                    }
                    if i + 1 < n1 {
                        assert(bytes_lt(a[i as int].0, a[i + 1].0));
                    }
                    if j + 1 < n2 {
                        assert(bytes_lt(b[j as int].0, b[j + 1].0));
                    }
                    if !pushed && ov.len() > 0 {
                        if i + 1 < n1 {
                            lemma_bytes_lt_transitive(ov.last().0, key, a[i + 1].0);
                        }
                        if j + 1 < n2 {
                            lemma_bytes_lt_transitive(ov.last().0, key, b[j + 1].0);
                        }
                    }
                }
                i += 1;
                j += 1;
            }
        }
        let ghost ov = entries_view(out@);
        proof {
            assert(a.subrange(i as int, n1 as int) =~= Seq::<(Seq<u8>, TokensV)>::empty());
            assert(b.subrange(j as int, n2 as int) =~= Seq::<(Seq<u8>, TokensV)>::empty());
            assert(token_count(Seq::<(Seq<u8>, TokensV)>::empty()) == 0);
            assert forall|c: Seq<u8>| !#[trigger] currency_overflows(a, b, c) by {
                assert(find(Seq::<(Seq<u8>, TokensV)>::empty(), c) is None);
            }
            assert forall|c: Seq<u8>, t: Seq<u8>| #[trigger] quantity(ov, c, t) == quantity(a, c, t) + quantity(b, c, t) by {
                assert(find(Seq::<(Seq<u8>, TokensV)>::empty(), c) is None);
            }
        }
        let (size, negative_count) = count_stats(&out);
        Ok(LedgerValue { entries: out, size, negative_count })
    }
}

/// The tokens with every quantity multiplied by `s`.
pub open spec fn scale_tokens(ts: TokensV, s: int) -> TokensV {
    Seq::new(ts.len(), |j: int| (ts[j].0, ts[j].1 * s))
}

/// The currencies with every quantity multiplied by `s`; none when `s` is
/// zero.
pub open spec fn scale_entries(v: EntriesV, s: int) -> EntriesV {
    if s == 0 {
        Seq::empty()
    } else {
        Seq::new(v.len(), |i: int| (v[i].0, scale_tokens(v[i].1, s)))
    }
}

/// Whether some product of a quantity by `s` leaves the signed 128-bit
/// range.
pub open spec fn scale_overflows(v: EntriesV, s: int) -> bool {
    exists|i: int, j: int|
        0 <= i < v.len() && 0 <= j < v[i].1.len() && !in_quantity_range(#[trigger] (v[i].1[j].1 * s))
}

/// Scaling keeps the shape and multiplies each quantity.
pub proof fn lemma_scale_quantity(v: EntriesV, s: int, c: Seq<u8>, t: Seq<u8>)
    ensures
        quantity(scale_entries(v, s), c, t) == quantity(v, c, t) * s,
    decreases v.len(),
{
    if s == 0 {
        assert(find(Seq::<(Seq<u8>, TokensV)>::empty(), c) is None);
        assert(quantity(v, c, t) * 0 == 0);
    } else if v.len() > 0 {
        let w = scale_entries(v, s);
        assert(w.subrange(1, w.len() as int) =~= scale_entries(v.subrange(1, v.len() as int), s));
        lemma_scale_quantity(v.subrange(1, v.len() as int), s, c, t);
        if v[0].0 == c {
            lemma_scale_token_quantity(v[0].1, s, t);
        }
    } else {
        assert(find(scale_entries(v, s), c) is None);
    }
}

/// Scaling tokens multiplies each quantity.
pub proof fn lemma_scale_token_quantity(ts: TokensV, s: int, t: Seq<u8>)
    ensures
        token_quantity(scale_tokens(ts, s), t) == token_quantity(ts, t) * s,
    decreases ts.len(),
{
    if ts.len() > 0 {
        let w = scale_tokens(ts, s);
        assert(w.subrange(1, w.len() as int) =~= scale_tokens(ts.subrange(1, ts.len() as int), s));
        lemma_scale_token_quantity(ts.subrange(1, ts.len() as int), s, t);
    } else {
        assert(find(scale_tokens(ts, s), t) is None);
    }
}

/// Scaling by a nonzero factor keeps the value well formed and the number
/// of tokens and makes negatives of positives when the factor is negative.
proof fn lemma_scale_wf(v: EntriesV, s: int)
    requires
        entries_wf(v),
        s != 0,
    ensures
        entries_wf(scale_entries(v, s)),
        token_count(scale_entries(v, s)) == token_count(v),
    decreases v.len(),
{
    let w = scale_entries(v, s);
    assert forall|i: int| 0 <= i < w.len() implies tokens_wf(#[trigger] w[i].1) by {
        let ts = v[i].1;
        assert(tokens_wf(ts));
        assert forall|j: int| 0 <= j < ts.len() implies #[trigger] scale_tokens(ts, s)[j].1 != 0 by {
            assert(ts[j].1 != 0);
            assert(ts[j].1 * s != 0) by (nonlinear_arith)
                requires
                    ts[j].1 != 0,
                    s != 0,
            ;
        }
        assert forall|a: int, b: int| 0 <= a < b < ts.len() implies bytes_lt(
            #[trigger] scale_tokens(ts, s)[a].0,
            #[trigger] scale_tokens(ts, s)[b].0,
        ) by {
            assert(bytes_lt(ts[a].0, ts[b].0));
        }
    }
    assert forall|a: int, b: int| 0 <= a < b < w.len() implies bytes_lt(#[trigger] w[a].0, #[trigger] w[b].0) by {
        assert(bytes_lt(v[a].0, v[b].0));
    }
    if v.len() > 0 {
        lemma_scale_wf(v.drop_last(), s);
        assert(scale_entries(v, s).drop_last() =~= scale_entries(v.drop_last(), s));
        lemma_sub_wf(v);
    }
}

/// Dropping the last currency keeps a value well formed.
proof fn lemma_sub_wf(v: EntriesV)
    requires
        entries_wf(v),
        v.len() > 0,
    ensures
        entries_wf(v.drop_last()),
{
    let d = v.drop_last();
    assert forall|a: int, b: int| 0 <= a < b < d.len() implies bytes_lt(#[trigger] d[a].0, #[trigger] d[b].0) by {
        assert(d[a] == v[a] && d[b] == v[b]);
    }
    assert forall|i: int| 0 <= i < d.len() implies tokens_wf(#[trigger] d[i].1) by {
        assert(d[i] == v[i]);
    }
}

impl LedgerValue {
    /// The value with every quantity multiplied by `scalar`; empty when
    /// `scalar` is zero; an error when a product leaves the signed 128-bit
    /// range.
    pub fn scale_value(scalar: &Integer, v: &LedgerValue) -> (r: Result<LedgerValue, ValueError>)
        requires
            v.wf(),
        ensures
            match r {
                Ok(w) => w.wf() && w@ == scale_entries(v@, scalar@) && (scalar@ != 0 ==> !scale_overflows(v@, scalar@)),
                Err(e) => e == ValueError::ScaleValueQuantityOutOfBounds && scalar@ != 0 && scale_overflows(v@, scalar@),
            },
    {
        if is_zero(scalar) {
            return Ok(LedgerValue::empty());
        }
        let ghost ev = v@;
        let ghost sv = scale_entries(ev, scalar@);
        let mut out: Vec<CurrencyEntry> = Vec::new();
        let mut i: usize = 0;
        while i < v.entries.len()
            invariant
                ev == v@,
                sv == scale_entries(ev, scalar@),
                scalar@ != 0,
                v.wf(),
                i <= v.entries@.len(),
                entries_view(out@) == sv.subrange(0, i as int),
                forall|a: int, b: int| 0 <= a < i && 0 <= b < ev[a].1.len() ==> in_quantity_range(#[trigger] (ev[a].1[b].1 * scalar@)),
            decreases v.entries@.len() - i,
        {
            let entry = &v.entries[i];
            let ghost ts = tokens_view(entry.tokens@);
            proof {
                lemma_entries_view_at(v.entries@, i as int);
            }
            let mut tokens: Vec<TokenEntry> = Vec::new();
            let mut j: usize = 0;
            while j < entry.tokens.len()
                invariant
                    ev == v@,
                    i < v.entries@.len(),
                    ts == tokens_view(entry.tokens@),
                    ts == ev[i as int].1,
                    j <= entry.tokens@.len(),
                    tokens_view(tokens@) == scale_tokens(ts, scalar@).subrange(0, j as int),
                    forall|b: int| 0 <= b < j ==> in_quantity_range(#[trigger] (ts[b].1 * scalar@)),
                decreases entry.tokens@.len() - j,
            {
                let token = &entry.tokens[j];
                proof {
                    lemma_tokens_view_at(entry.tokens@, j as int);
                }
                let product = token.quantity.multiply(scalar);
                if check_quantity_range(&product).is_err() {
                    proof {
                        assert(!in_quantity_range(ev[i as int].1[j as int].1 * scalar@));
                        assert(0 <= j < ev[i as int].1.len());
                        assert(scale_overflows(ev, scalar@));
                    }
                    return Err(ValueError::ScaleValueQuantityOutOfBounds);
                }
                let x = TokenEntry { name: copy_bytes(&token.name), quantity: product };
                proof {
                    lemma_tokens_view_push(tokens@, x);
                }
                tokens.push(x);
                j += 1;
                assert(tokens_view(tokens@) =~= scale_tokens(ts, scalar@).subrange(0, j as int));
            }
            let c = CurrencyEntry { currency: copy_bytes(&entry.currency), tokens };
            proof {
                lemma_entries_view_push(out@, c);
                assert(tokens_view(c.tokens@) =~= scale_tokens(ts, scalar@));
            }
            out.push(c);
            i += 1;
            assert(entries_view(out@) =~= sv.subrange(0, i as int));
        }
        proof {
            assert(sv.subrange(0, i as int) =~= sv);
            lemma_scale_wf(ev, scalar@);
        }
        let (size, negative_count) = count_stats(&out);
        Ok(LedgerValue { entries: out, size, negative_count })
    }
}

/// The most tokens that `valueData` accepts.
pub const VALUE_DATA_MAX_SIZE: usize = 40000;

/// The data form of tokens: a map from name to quantity.
pub open spec fn tokens_data(ts: TokensV) -> DataV {
    DataV::AssocList(Seq::new(ts.len(), |j: int| (DataV::ByteString(ts[j].0), DataV::Integer(ts[j].1))))
}

/// The data form of a value: a map from currency symbol to the map of its
/// tokens.
pub open spec fn value_data_spec(v: EntriesV) -> DataV {
    DataV::AssocList(Seq::new(v.len(), |i: int| (DataV::ByteString(v[i].0), tokens_data(v[i].1))))
}

impl LedgerValue {
    /// The data form of the value; an error when it has more than
    /// [`VALUE_DATA_MAX_SIZE`] tokens.
    pub fn value_data(v: &LedgerValue) -> (r: Result<PlutusData, ValueError>)
        ensures
            v.size > VALUE_DATA_MAX_SIZE ==> r == Err::<PlutusData, ValueError>(
                ValueError::ValueDataMaxSizeExceeded(VALUE_DATA_MAX_SIZE),
            ),
            v.size <= VALUE_DATA_MAX_SIZE ==> (r matches Ok(d) && d@ == value_data_spec(v@)),
    {
        if v.size > VALUE_DATA_MAX_SIZE {
            return Err(ValueError::ValueDataMaxSizeExceeded(VALUE_DATA_MAX_SIZE));
        }
        let ghost ev = v@;
        let mut outer: Vec<(PlutusData, PlutusData)> = Vec::new();
        let mut i: usize = 0;
        while i < v.entries.len()
            invariant
                ev == v@,
                i <= v.entries@.len(),
                pairs_view(outer@) == value_data_spec(ev)->AssocList_0.subrange(0, i as int),
            decreases v.entries@.len() - i,
        {
            let entry = &v.entries[i];
            let ghost ts = tokens_view(entry.tokens@);
            proof {
                lemma_entries_view_at(v.entries@, i as int);
            }
            let mut inner: Vec<(PlutusData, PlutusData)> = Vec::new();
            let mut j: usize = 0;
            while j < entry.tokens.len()
                invariant
                    ts == tokens_view(entry.tokens@),
                    j <= entry.tokens@.len(),
                    pairs_view(inner@) == tokens_data(ts)->AssocList_0.subrange(0, j as int),
                decreases entry.tokens@.len() - j,
            {
                let token = &entry.tokens[j];
                proof {
                    lemma_tokens_view_at(entry.tokens@, j as int);
                }
                let pair = (
                    PlutusData::ByteString(copy_bytes(&token.name)),
                    PlutusData::Integer(crate::constant::copy_integer(&token.quantity)),
                );
                proof {
                    lemma_pairs_view_push(inner@, pair);
                }
                inner.push(pair);
                j += 1;
                assert(pairs_view(inner@) =~= tokens_data(ts)->AssocList_0.subrange(0, j as int));
            }
            let pair = (PlutusData::ByteString(copy_bytes(&entry.currency)), PlutusData::AssocList(inner));
            proof {
                assert(tokens_data(ts)->AssocList_0.subrange(0, j as int) =~= tokens_data(ts)->AssocList_0);
                lemma_pairs_view_push(outer@, pair);
            }
            outer.push(pair);
            i += 1;
            assert(pairs_view(outer@) =~= value_data_spec(ev)->AssocList_0.subrange(0, i as int));
        }
        proof {
            assert(value_data_spec(ev)->AssocList_0.subrange(0, i as int) =~= value_data_spec(ev)->AssocList_0);
        }
        Ok(PlutusData::AssocList(outer))
    }
}

/// Checking the token entries of a map from position `k` on, after the
/// name `prev`: the tokens, or why the map does not stand for tokens.
pub open spec fn check_tokens(ps: Seq<(DataV, DataV)>, k: nat, prev: Option<Seq<u8>>) -> Result<TokensV, UnValueDataError>
    decreases ps.len() - k,
{
    if k >= ps.len() {
        Ok(Seq::empty())
    } else {
        match ps[k as int].0 {
            DataV::ByteString(tok) => {
                if tok.len() > 32 {
                    Err(UnValueDataError::InvalidKey)
                } else if prev is Some && !bytes_lt(prev->Some_0, tok) {
                    Err(UnValueDataError::TokenNotAscending)
                } else {
                    match ps[k as int].1 {
                        DataV::Integer(q) => {
                            if q == 0 || !in_quantity_range(q) {
                                Err(UnValueDataError::InvalidQuantity)
                            } else {
                                match check_tokens(ps, k + 1, Some(tok)) {
                                    Ok(rest) => Ok(seq![(tok, q)] + rest),
                                    Err(e) => Err(e),
                                }
                            }
                        },
                        _ => Err(UnValueDataError::NonIntegerConstructor),
                    }
                }
            },
            _ => Err(UnValueDataError::NonByteStringConstructor),
        }
    }
}

/// Checking the currency entries of a map from position `k` on, after the
/// symbol `prev`.
pub open spec fn check_entries(ps: Seq<(DataV, DataV)>, k: nat, prev: Option<Seq<u8>>) -> Result<EntriesV, UnValueDataError>
    decreases ps.len() - k,
{
    if k >= ps.len() {
        Ok(Seq::empty())
    } else {
        match ps[k as int].0 {
            DataV::ByteString(ccy) => {
                if ccy.len() > 32 {
                    Err(UnValueDataError::InvalidKey)
                } else if prev is Some && !bytes_lt(prev->Some_0, ccy) {
                    Err(UnValueDataError::CurrencyNotAscending)
                } else {
                    match ps[k as int].1 {
                        DataV::AssocList(inner) => {
                            if inner.len() == 0 {
                                Err(UnValueDataError::EmptyInnerMap)
                            } else {
                                match check_tokens(inner, 0, None) {
                                    Ok(ts) => match check_entries(ps, k + 1, Some(ccy)) {
                                        Ok(rest) => Ok(seq![(ccy, ts)] + rest),
                                        Err(e) => Err(e),
                                    },
                                    Err(e) => Err(e),
                                }
                            }
                        },
                        _ => Err(UnValueDataError::NonMapConstructor),
                    }
                }
            },
            _ => Err(UnValueDataError::NonByteStringConstructor),
        }
    }
}

/// What a data item stands for as a value: the currencies, or why it
/// stands for none.
pub open spec fn check_value_data(d: DataV) -> Result<EntriesV, UnValueDataError> {
    match d {
        DataV::AssocList(ps) => check_entries(ps, 0, None),
        _ => Err(UnValueDataError::NonMapConstructor),
    }
}

/// A result with `front` put before what it holds.
pub open spec fn prepend<T>(front: Seq<T>, r: Result<Seq<T>, UnValueDataError>) -> Result<Seq<T>, UnValueDataError> {
    match r {
        Ok(rest) => Ok(front + rest),
        Err(e) => Err(e),
    }
}

/// Tokens that pass the check are sorted after `prev`, nonzero and in
/// range, one per entry.
proof fn lemma_check_tokens_ok(ps: Seq<(DataV, DataV)>, k: nat, prev: Option<Seq<u8>>)
    requires
        k <= ps.len(),
        check_tokens(ps, k, prev) is Ok,
    ensures
        sorted_keys(check_tokens(ps, k, prev)->Ok_0),
        nonzero_quantities(check_tokens(ps, k, prev)->Ok_0),
        check_tokens(ps, k, prev)->Ok_0.len() == ps.len() - k,
        prev is Some ==> forall|j: int| 0 <= j < check_tokens(ps, k, prev)->Ok_0.len() ==> bytes_lt(
            prev->Some_0,
            #[trigger] check_tokens(ps, k, prev)->Ok_0[j].0,
        ),
    decreases ps.len() - k,
{
    if k < ps.len() {
        let tok = ps[k as int].0->ByteString_0;
        let q = ps[k as int].1->Integer_0;
        lemma_check_tokens_ok(ps, k + 1, Some(tok));
        let rest = check_tokens(ps, k + 1, Some(tok))->Ok_0;
        let all = seq![(tok, q)] + rest;
        assert forall|a: int, b: int| 0 <= a < b < all.len() implies bytes_lt(#[trigger] all[a].0, #[trigger] all[b].0) by {
            if a > 0 {
                assert(all[a] == rest[a - 1] && all[b] == rest[b - 1]);
            } else {
                assert(all[b] == rest[b - 1]);
            }
        }
        assert forall|j: int| 0 <= j < all.len() implies #[trigger] all[j].1 != 0 by {
            if j > 0 {
                assert(all[j] == rest[j - 1]);
            }
        }
        if prev is Some {
            assert forall|j: int| 0 <= j < all.len() implies bytes_lt(prev->Some_0, #[trigger] all[j].0) by {
                if j > 0 {
                    assert(all[j] == rest[j - 1]);
                    lemma_bytes_lt_transitive(prev->Some_0, tok, rest[j - 1].0);
                }
            }
        }
    }
}

/// Currencies that pass the check are sorted after `prev`, each with well
/// formed tokens, one per entry.
proof fn lemma_check_entries_ok(ps: Seq<(DataV, DataV)>, k: nat, prev: Option<Seq<u8>>)
    requires
        k <= ps.len(),
        check_entries(ps, k, prev) is Ok,
    ensures
        entries_wf(check_entries(ps, k, prev)->Ok_0),
        prev is Some ==> forall|j: int| 0 <= j < check_entries(ps, k, prev)->Ok_0.len() ==> bytes_lt(
            prev->Some_0,
            #[trigger] check_entries(ps, k, prev)->Ok_0[j].0,
        ),
    decreases ps.len() - k,
{
    if k < ps.len() {
        let ccy = ps[k as int].0->ByteString_0;
        let inner = ps[k as int].1->AssocList_0;
        lemma_check_tokens_ok(inner, 0, None);
        lemma_check_entries_ok(ps, k + 1, Some(ccy));
        let ts = check_tokens(inner, 0, None)->Ok_0;
        let rest = check_entries(ps, k + 1, Some(ccy))->Ok_0;
        let all = seq![(ccy, ts)] + rest;
        assert forall|a: int, b: int| 0 <= a < b < all.len() implies bytes_lt(#[trigger] all[a].0, #[trigger] all[b].0) by {
            if a > 0 {
                assert(all[a] == rest[a - 1] && all[b] == rest[b - 1]);
            } else {
                assert(all[b] == rest[b - 1]);
            }
        }
        assert forall|j: int| 0 <= j < all.len() implies tokens_wf(#[trigger] all[j].1) by {
            if j > 0 {
                assert(all[j] == rest[j - 1]);
            }
        }
        if prev is Some {
            assert forall|j: int| 0 <= j < all.len() implies bytes_lt(prev->Some_0, #[trigger] all[j].0) by {
                if j > 0 {
                    assert(all[j] == rest[j - 1]);
                    lemma_bytes_lt_transitive(prev->Some_0, ccy, rest[j - 1].0);
                }
            }
        }
    }
}

/// The view of an optional byte string.
pub open spec fn opt_bytes(p: Option<&Vec<u8>>) -> Option<Seq<u8>> {
    match p {
        Some(v) => Some(v@),
        None => None,
    }
}

/// Checks the token map `inner` and builds its tokens.
fn un_tokens(inner: &Vec<(PlutusData, PlutusData)>) -> (r: Result<Vec<TokenEntry>, UnValueDataError>)
    ensures
        match check_tokens(pairs_view(inner@), 0, None) {
            Ok(ts) => r matches Ok(v) && tokens_view(v@) == ts,
            Err(e) => r == Err::<Vec<TokenEntry>, UnValueDataError>(e),
        },
{
    let ghost ps = pairs_view(inner@);
    proof {
        lemma_pairs_view_index(inner@);
    }
    let mut out: Vec<TokenEntry> = Vec::new();
    let mut prev: Option<&Vec<u8>> = None;
    let mut k: usize = 0;
    assert(tokens_view(out@) =~= Seq::<(Seq<u8>, int)>::empty());
    assert(check_tokens(ps, 0, None) == prepend(tokens_view(out@), check_tokens(ps, 0, None))) by {
        match check_tokens(ps, 0, None) {
            Ok(rest) => {
                assert(Seq::<(Seq<u8>, int)>::empty() + rest =~= rest);
            },
            Err(_) => {},
        }
    }
    while k < inner.len()
        invariant
            ps == pairs_view(inner@),
            ps.len() == inner@.len(),
            forall|i: int| 0 <= i < inner@.len() ==> #[trigger] ps[i] == (data_view(inner@[i].0), data_view(inner@[i].1)),
            k <= inner@.len(),
            check_tokens(ps, 0, None) == prepend(tokens_view(out@), check_tokens(ps, k as nat, opt_bytes(prev))),
        decreases inner@.len() - k,
    {
        let (key, value) = (&inner[k].0, &inner[k].1);
        let ghost before = tokens_view(out@);
        assert(ps[k as int] == (data_view(*key), data_view(*value)));
        let tok = match key {
            PlutusData::ByteString(bs) => bs,
            _ => {
                return Err(UnValueDataError::NonByteStringConstructor);
            },
        };
        if tok.len() > 32 {
            return Err(UnValueDataError::InvalidKey);
        }
        match prev {
            Some(p) => {
                if order_bytes(p.as_slice(), tok.as_slice()) != ByteOrder::Less {
                    return Err(UnValueDataError::TokenNotAscending);
                }
            },
            None => {},
        }
        let q = match value {
            PlutusData::Integer(i) => i,
            _ => {
                return Err(UnValueDataError::NonIntegerConstructor);
            },
        };
        if is_zero(q) || check_quantity_range(q).is_err() {
            return Err(UnValueDataError::InvalidQuantity);
        }
        let x = TokenEntry { name: copy_bytes(tok), quantity: crate::constant::copy_integer(q) };
        proof {
            lemma_tokens_view_push(out@, x);
            match check_tokens(ps, (k + 1) as nat, Some(tok@)) {
                Ok(rest) => {
                    assert(before + (seq![(tok@, q@)] + rest) =~= before.push((tok@, q@)) + rest);
                },
                Err(_) => {},
            }
        }
        out.push(x);
        prev = Some(tok);
        k += 1;
    }
    proof {
        assert(check_tokens(ps, k as nat, opt_bytes(prev)) == Ok::<TokensV, UnValueDataError>(Seq::empty()));
        assert(tokens_view(out@) + Seq::<(Seq<u8>, int)>::empty() =~= tokens_view(out@));
    }
    Ok(out)
}

impl LedgerValue {
    /// The value a data item stands for: a map from currency symbols of at
    /// most 32 bytes, strictly ascending, to non-empty maps from token names
    /// of at most 32 bytes, strictly ascending, to nonzero quantities in the
    /// signed 128-bit range.
    pub fn un_value_data(d: &PlutusData) -> (r: Result<LedgerValue, ValueError>)
        requires
            check_value_data(d@) is Ok ==> token_count(check_value_data(d@)->Ok_0) <= usize::MAX,
        ensures
            match check_value_data(d@) {
                Ok(ev) => r matches Ok(v) && v.wf() && v@ == ev,
                Err(e) => r == Err::<LedgerValue, ValueError>(ValueError::UnValueData(e)),
            },
    {
        let outer = match d {
            PlutusData::AssocList(m) => m,
            _ => {
                return Err(ValueError::UnValueData(UnValueDataError::NonMapConstructor));
            },
        };
        let ghost ps = pairs_view(outer@);
        proof {
            lemma_pairs_view_index(outer@);
        }
        let mut out: Vec<CurrencyEntry> = Vec::new();
        let mut prev: Option<&Vec<u8>> = None;
        let mut k: usize = 0;
        assert(entries_view(out@) =~= Seq::<(Seq<u8>, TokensV)>::empty());
        assert(check_entries(ps, 0, None) == prepend(entries_view(out@), check_entries(ps, 0, None))) by {
            match check_entries(ps, 0, None) {
                Ok(rest) => {
                    assert(Seq::<(Seq<u8>, TokensV)>::empty() + rest =~= rest);
                },
                Err(_) => {},
            }
        }
        while k < outer.len()
            invariant
                ps == pairs_view(outer@),
                check_value_data(d@) == check_entries(ps, 0, None),
                ps.len() == outer@.len(),
                forall|i: int| 0 <= i < outer@.len() ==> #[trigger] ps[i] == (data_view(outer@[i].0), data_view(outer@[i].1)),
                k <= outer@.len(),
                check_entries(ps, 0, None) == prepend(entries_view(out@), check_entries(ps, k as nat, opt_bytes(prev))),
            decreases outer@.len() - k,
        {
            let (key, value) = (&outer[k].0, &outer[k].1);
            let ghost before = entries_view(out@);
            assert(ps[k as int] == (data_view(*key), data_view(*value)));
            let ccy = match key {
                PlutusData::ByteString(bs) => bs,
                _ => {
                    return Err(ValueError::UnValueData(UnValueDataError::NonByteStringConstructor));
                },
            };
            if ccy.len() > 32 {
                return Err(ValueError::UnValueData(UnValueDataError::InvalidKey));
            }
            match prev {
                Some(p) => {
                    if order_bytes(p.as_slice(), ccy.as_slice()) != ByteOrder::Less {
                        return Err(ValueError::UnValueData(UnValueDataError::CurrencyNotAscending));
                    }
                },
                None => {},
            }
            let inner = match value {
                PlutusData::AssocList(m) => m,
                _ => {
                    return Err(ValueError::UnValueData(UnValueDataError::NonMapConstructor));
                },
            };
            proof {
                lemma_pairs_view_index(inner@);
            }
            if inner.len() == 0 {
                return Err(ValueError::UnValueData(UnValueDataError::EmptyInnerMap));
            }
            let tokens = match un_tokens(inner) {
                Ok(t) => t,
                Err(e) => {
                    return Err(ValueError::UnValueData(e));
                },
            };
            let x = CurrencyEntry { currency: copy_bytes(ccy), tokens };
            proof {
                lemma_entries_view_push(out@, x);
                match check_entries(ps, (k + 1) as nat, Some(ccy@)) {
                    Ok(rest) => {
                        assert(before + (seq![(ccy@, tokens_view(x.tokens@))] + rest) =~= before.push(
                            (ccy@, tokens_view(x.tokens@)),
                        ) + rest);
                    },
                    Err(_) => {},
                }
            }
            out.push(x);
            prev = Some(ccy);
            k += 1;
        }
        proof {
            assert(check_entries(ps, k as nat, opt_bytes(prev)) == Ok::<EntriesV, UnValueDataError>(Seq::empty()));
            assert(entries_view(out@) + Seq::<(Seq<u8>, TokensV)>::empty() =~= entries_view(out@));
            lemma_check_entries_ok(ps, 0, None);
        }
        let (size, negative_count) = count_stats(&out);
        Ok(LedgerValue { entries: out, size, negative_count })
    }
}

/// Whether every currency symbol and token name has at most 32 bytes and
/// every quantity lies in the signed 128-bit range.
pub open spec fn keys_and_quantities_valid(v: EntriesV) -> bool {
    &&& forall|i: int| 0 <= i < v.len() ==> (#[trigger] v[i]).0.len() <= 32
    &&& forall|i: int, j: int| 0 <= i < v.len() && 0 <= j < v[i].1.len() ==> (#[trigger] v[i].1[j]).0.len() <= 32
        && in_quantity_range(v[i].1[j].1)
}

/// The check of the data form of tokens gives them back.
proof fn lemma_check_tokens_roundtrip(ts: TokensV, j: nat)
    requires
        sorted_keys(ts),
        nonzero_quantities(ts),
        forall|k: int| 0 <= k < ts.len() ==> (#[trigger] ts[k]).0.len() <= 32 && in_quantity_range(ts[k].1),
        j <= ts.len(),
    ensures
        check_tokens(tokens_data(ts)->AssocList_0, j, if j == 0 { None } else { Some(ts[j - 1].0) }) == Ok::<
            TokensV,
            UnValueDataError,
        >(ts.subrange(j as int, ts.len() as int)),
    decreases ts.len() - j,
{
    let ps = tokens_data(ts)->AssocList_0;
    if j < ts.len() {
        lemma_check_tokens_roundtrip(ts, j + 1);
        assert(ps[j as int] == (DataV::ByteString(ts[j as int].0), DataV::Integer(ts[j as int].1)));
        if j > 0 {
            assert(bytes_lt(ts[j - 1].0, ts[j as int].0));
        }
        assert(seq![(ts[j as int].0, ts[j as int].1)] + ts.subrange(j + 1int, ts.len() as int) =~= ts.subrange(
            j as int,
            ts.len() as int,
        ));
    } else {
        assert(ts.subrange(j as int, ts.len() as int) =~= Seq::<(Seq<u8>, int)>::empty());
    }
}

/// The check of the data form of currencies gives them back.
proof fn lemma_check_entries_roundtrip(v: EntriesV, k: nat)
    requires
        entries_wf(v),
        keys_and_quantities_valid(v),
        k <= v.len(),
    ensures
        check_entries(value_data_spec(v)->AssocList_0, k, if k == 0 { None } else { Some(v[k - 1].0) }) == Ok::<
            EntriesV,
            UnValueDataError,
        >(v.subrange(k as int, v.len() as int)),
    decreases v.len() - k,
{
    let ps = value_data_spec(v)->AssocList_0;
    if k < v.len() {
        lemma_check_entries_roundtrip(v, k + 1);
        let ts = v[k as int].1;
        assert(tokens_wf(ts));
        assert forall|x: int| 0 <= x < ts.len() implies (#[trigger] ts[x]).0.len() <= 32 && in_quantity_range(ts[x].1) by {
            assert(v[k as int].1[x] == ts[x]);
        }
        lemma_check_tokens_roundtrip(ts, 0);
        assert(ts.subrange(0, ts.len() as int) =~= ts);
        assert(ps[k as int] == (DataV::ByteString(v[k as int].0), tokens_data(ts)));
        if k > 0 {
            assert(bytes_lt(v[k - 1].0, v[k as int].0));
        }
        assert(seq![(v[k as int].0, ts)] + v.subrange(k + 1int, v.len() as int) =~= v.subrange(k as int, v.len() as int));
    } else {
        assert(v.subrange(k as int, v.len() as int) =~= Seq::<(Seq<u8>, TokensV)>::empty());
    }
}

/// The data form of a well-formed value whose keys have at most 32 bytes
/// and whose quantities lie in the signed 128-bit range stands for that
/// value again.
pub proof fn lemma_value_data_roundtrip(v: EntriesV)
    requires
        entries_wf(v),
        keys_and_quantities_valid(v),
    ensures
        check_value_data(value_data_spec(v)) == Ok::<EntriesV, UnValueDataError>(v),
{
    lemma_check_entries_roundtrip(v, 0);
    assert(v.subrange(0, v.len() as int) =~= v);
}

/// Whether some quantity is negative.
pub open spec fn has_negative(v: EntriesV) -> bool {
    exists|i: int, j: int| 0 <= i < v.len() && 0 <= j < v[i].1.len() && #[trigger] v[i].1[j].1 < 0
}

/// Whether every quantity of `b` is at most the same quantity of `a`.
pub open spec fn contains(a: EntriesV, b: EntriesV) -> bool {
    forall|c: Seq<u8>, t: Seq<u8>| #[trigger] quantity(b, c, t) <= quantity(a, c, t)
}

/// Some negative quantity among tokens makes their count positive.
proof fn lemma_negatives_in_positive(ts: TokensV)
    ensures
        (negatives_in(ts) > 0) <==> (exists|j: int| 0 <= j < ts.len() && #[trigger] ts[j].1 < 0),
    decreases ts.len(),
{
    if ts.len() > 0 {
        let d = ts.drop_last();
        lemma_negatives_in_positive(d);
        if exists|j: int| 0 <= j < d.len() && #[trigger] d[j].1 < 0 {
            let j = choose|j: int| 0 <= j < d.len() && #[trigger] d[j].1 < 0;
            assert(ts[j] == d[j]);
        }
        if exists|j: int| 0 <= j < ts.len() && #[trigger] ts[j].1 < 0 {
            let j = choose|j: int| 0 <= j < ts.len() && #[trigger] ts[j].1 < 0;
            if j < d.len() {
                assert(d[j] == ts[j]);
            }
        }
    }
}

/// A negative quantity makes the count of negatives positive.
proof fn lemma_negative_total_positive(v: EntriesV)
    ensures
        (negative_total(v) > 0) <==> has_negative(v),
    decreases v.len(),
{
    if v.len() > 0 {
        let d = v.drop_last();
        lemma_negative_total_positive(d);
        lemma_negatives_in_positive(v.last().1);
        if has_negative(d) {
            let (i, j) = choose|i: int, j: int| 0 <= i < d.len() && 0 <= j < d[i].1.len() && #[trigger] d[i].1[j].1 < 0;
            assert(v[i] == d[i]);
        }
        if exists|j: int| 0 <= j < v.last().1.len() && #[trigger] v.last().1[j].1 < 0 {
            let j = choose|j: int| 0 <= j < v.last().1.len() && #[trigger] v.last().1[j].1 < 0;
            assert(v[v.len() - 1].1[j].1 < 0);
        }
        if has_negative(v) {
            let (i, j) = choose|i: int, j: int| 0 <= i < v.len() && 0 <= j < v[i].1.len() && #[trigger] v[i].1[j].1 < 0;
            if i < d.len() {
                assert(d[i] == v[i]);
            } else {
                assert(v.last().1[j].1 < 0);
            }
        }
    } else {
        assert(!has_negative(v));
    }
}

/// In a well-formed value, the quantity at a stored currency and token is
/// the stored one, and a quantity that is not stored is zero.
proof fn lemma_quantity_at(v: EntriesV, i: int, j: int)
    requires
        entries_wf(v),
        0 <= i < v.len(),
        0 <= j < v[i].1.len(),
    ensures
        quantity(v, v[i].0, v[i].1[j].0) == v[i].1[j].1,
{
    lemma_find_sorted(v, i);
    assert(tokens_wf(v[i].1));
    lemma_find_sorted(v[i].1, j);
}

/// A quantity of a value without a negative one is not negative.
proof fn lemma_quantity_nonnegative(v: EntriesV, c: Seq<u8>, t: Seq<u8>)
    requires
        !has_negative(v),
    ensures
        quantity(v, c, t) >= 0,
{
    lemma_find_index(v, c);
    if find(v, c) is Some {
        let i = choose|i: int| 0 <= i < v.len() && v[i].0 == c && find(v, c) == Some(v[i].1);
        lemma_find_index(v[i].1, t);
        if find(v[i].1, t) is Some {
            let j = choose|j: int| 0 <= j < v[i].1.len() && v[i].1[j].0 == t && find(v[i].1, t) == Some(v[i].1[j].1);
            assert(!(v[i].1[j].1 < 0));
        }
    }
}

/// What is found is held by some entry with the key.
pub proof fn lemma_find_index<T>(s: Seq<(Seq<u8>, T)>, k: Seq<u8>)
    ensures
        find(s, k) is Some ==> exists|i: int| 0 <= i < s.len() && s[i].0 == k && find(s, k) == Some(s[i].1),
    decreases s.len(),
{
    if s.len() > 0 && s[0].0 != k {
        let rest = s.subrange(1, s.len() as int);
        lemma_find_index(rest, k);
        if find(s, k) is Some {
            let i = choose|i: int| 0 <= i < rest.len() && rest[i].0 == k && find(rest, k) == Some(rest[i].1);
            assert(s[i + 1] == rest[i]);
        }
    } else if s.len() > 0 {
        assert(s[0].0 == k);
    }
}

/// Every quantity of `b` outside its stored ones is zero.
proof fn lemma_quantity_absent(v: EntriesV, c: Seq<u8>, t: Seq<u8>)
    requires
        entries_wf(v),
        forall|i: int, j: int| 0 <= i < v.len() && 0 <= j < v[i].1.len() ==> !(v[i].0 == c && #[trigger] v[i].1[j].0 == t),
    ensures
        quantity(v, c, t) == 0,
{
    lemma_find_index(v, c);
    if find(v, c) is Some {
        let i = choose|i: int| 0 <= i < v.len() && v[i].0 == c && find(v, c) == Some(v[i].1);
        lemma_find_index(v[i].1, t);
        if find(v[i].1, t) is Some {
            let j = choose|j: int| 0 <= j < v[i].1.len() && v[i].1[j].0 == t && find(v[i].1, t) == Some(v[i].1[j].1);
            assert(v[i].1[j].0 == t);
        }
    }
}

impl LedgerValue {
    /// Whether every quantity of `v2` is at most the same quantity of
    /// `v1`; an error when either has a negative quantity.
    pub fn value_contains(v1: &LedgerValue, v2: &LedgerValue) -> (r: Result<bool, ValueError>)
        requires
            v1.wf(),
            v2.wf(),
        ensures
            has_negative(v1@) ==> r == Err::<bool, ValueError>(ValueError::ValueContainsFirstNegative),
            !has_negative(v1@) && has_negative(v2@) ==> r == Err::<bool, ValueError>(
                ValueError::ValueContainsSecondNegative,
            ),
            !has_negative(v1@) && !has_negative(v2@) ==> r == Ok::<bool, ValueError>(contains(v1@, v2@)),
    {
        proof {
            lemma_negative_total_positive(v1@);
            lemma_negative_total_positive(v2@);
        }
        if v1.negative_count > 0 {
            return Err(ValueError::ValueContainsFirstNegative);
        }
        if v2.negative_count > 0 {
            return Err(ValueError::ValueContainsSecondNegative);
        }
        let ghost a = v1@;
        let ghost b = v2@;
        let mut i: usize = 0;
        while i < v2.entries.len()
            invariant
                a == v1@,
                b == v2@,
                v1.wf(),
                v2.wf(),
                !has_negative(a),
                !has_negative(b),
                i <= v2.entries@.len(),
                forall|x: int, y: int| 0 <= x < i && 0 <= y < b[x].1.len() ==> #[trigger] b[x].1[y].1 <= quantity(a, b[x].0, b[x].1[y].0),
            decreases v2.entries@.len() - i,
        {
            let entry = &v2.entries[i];
            proof {
                lemma_entries_view_at(v2.entries@, i as int);
            }
            let mut j: usize = 0;
            while j < entry.tokens.len()
                invariant
                    a == v1@,
                    b == v2@,
                    v1.wf(),
                    v2.wf(),
                    !has_negative(a),
                    !has_negative(b),
                    i < v2.entries@.len(),
                    b[i as int] == (entry.currency@, tokens_view(entry.tokens@)),
                    j <= entry.tokens@.len(),
                    forall|x: int, y: int| 0 <= x < i && 0 <= y < b[x].1.len() ==> #[trigger] b[x].1[y].1 <= quantity(a, b[x].0, b[x].1[y].0),
                    forall|y: int| 0 <= y < j ==> #[trigger] b[i as int].1[y].1 <= quantity(a, b[i as int].0, b[i as int].1[y].0),
                decreases entry.tokens@.len() - j,
            {
                let token = &entry.tokens[j];
                proof {
                    lemma_tokens_view_at(entry.tokens@, j as int);
                }
                let have = v1.lookup_coin(entry.currency.as_slice(), token.name.as_slice());
                if have.less_than(&token.quantity) {
                    proof {
                        lemma_quantity_at(b, i as int, j as int);
                        assert(!(quantity(b, b[i as int].0, b[i as int].1[j as int].0) <= quantity(
                            a,
                            b[i as int].0,
                            b[i as int].1[j as int].0,
                        )));
                    }
                    return Ok(false);
                }
                j += 1;
            }
            i += 1;
        }
        proof {
            assert forall|c: Seq<u8>, t: Seq<u8>| #[trigger] quantity(b, c, t) <= quantity(a, c, t) by {
                lemma_quantity_nonnegative(a, c, t);
                if exists|x: int, y: int| 0 <= x < b.len() && 0 <= y < b[x].1.len() && b[x].0 == c && #[trigger] b[x].1[y].0 == t {
                    let (x, y) = choose|x: int, y: int| 0 <= x < b.len() && 0 <= y < b[x].1.len() && b[x].0 == c && #[trigger] b[x].1[y].0 == t;
                    lemma_quantity_at(b, x, y);
                    assert(b[x].1[y].1 <= quantity(a, b[x].0, b[x].1[y].0));
                } else {
                    lemma_quantity_absent(b, c, t);
                }
            }
        }
        Ok(true)
    }
}

/// The number of binary digits of `n`: 0 for 0.
fn bit_length_usize(n: usize) -> (r: i64)
    ensures
        r == crate::integer::bit_length(n as nat),
{
    let mut m = n;
    let mut bits: i64 = 0;
    proof {
        lemma_bit_length_small(n as nat);
    }
    while m > 0
        invariant
            bits + crate::integer::bit_length(m as nat) == crate::integer::bit_length(n as nat),
            crate::integer::bit_length(n as nat) <= 64,
            0 <= bits,
        decreases m,
    {
        m = m / 2;
        bits = bits + 1;
    }
    bits
}

/// The depth of the value for costing: the number of binary digits of the
/// number of currencies plus that of the largest number of tokens.
pub fn value_max_depth(v: &LedgerValue) -> (r: i64)
    ensures
        r == crate::integer::bit_length(v.entries@.len() as nat) + crate::integer::bit_length(max_tokens(v.entries@) as nat),
{
    let outer_size = v.entries.len();
    let mut max_inner: usize = 0;
    let mut i: usize = 0;
    while i < v.entries.len()
        invariant
            i <= v.entries@.len(),
            max_inner == max_tokens(v.entries@.subrange(0, i as int)),
        decreases v.entries@.len() - i,
    {
        proof {
            assert(v.entries@.subrange(0, i + 1).drop_last() =~= v.entries@.subrange(0, i as int));
        }
        if v.entries[i].tokens.len() > max_inner {
            max_inner = v.entries[i].tokens.len();
        }
        i += 1;
    }
    assert(v.entries@.subrange(0, i as int) =~= v.entries@);
    let log_outer = bit_length_usize(outer_size);
    let log_inner = bit_length_usize(max_inner);
    proof {
        lemma_bit_length_small(outer_size as nat);
        lemma_bit_length_small(max_inner as nat);
    }
    log_outer + log_inner
}

/// `2` to the power `k`.
pub open spec fn two_pow(k: nat) -> nat
    decreases k,
{
    if k == 0 {
        1
    } else {
        2 * two_pow((k - 1) as nat)
    }
}

/// A number below `2^k` has at most `k` binary digits.
proof fn lemma_bit_length_below(n: nat, k: nat)
    requires
        n < two_pow(k),
    ensures
        crate::integer::bit_length(n) <= k,
    decreases k,
{
    if n > 0 {
        lemma_bit_length_below(n / 2, (k - 1) as nat);
    }
}

/// A machine word has at most 64 binary digits.
proof fn lemma_bit_length_small(n: nat)
    requires
        n <= usize::MAX,
    ensures
        crate::integer::bit_length(n) <= 64,
{
    assert(two_pow(64) == 0x1_0000_0000_0000_0000) by {
        reveal_with_fuel(two_pow, 65);
    }
    lemma_bit_length_below(n, 64);
}

/// The largest number of tokens of a currency; 0 for none.
pub open spec fn max_tokens(s: Seq<CurrencyEntry>) -> usize
    decreases s.len(),
{
    if s.len() == 0 {
        0
    } else {
        let m = max_tokens(s.drop_last());
        if s.last().tokens@.len() > m {
            s.last().tokens@.len() as usize
        } else {
            m
        }
    }
}

/// The number of nodes of a data item, itself included.
pub open spec fn data_nodes(d: DataV) -> nat
    decreases d, 1nat,
{
    1 + match d {
        DataV::Constr(_, fields) => datas_nodes(fields),
        DataV::AssocList(entries) => pairs_nodes(entries),
        DataV::List(items) => datas_nodes(items),
        _ => 0,
    }
}

/// The number of nodes of data items.
pub open spec fn datas_nodes(s: Seq<DataV>) -> nat
    decreases s, 0nat,
{
    if s.len() == 0 {
        0
    } else {
        data_nodes(s[0]) + datas_nodes(s.subrange(1, s.len() as int))
    }
}

/// The number of nodes of key/value entries.
pub open spec fn pairs_nodes(s: Seq<(DataV, DataV)>) -> nat
    decreases s, 0nat,
{
    if s.len() == 0 {
        0
    } else {
        data_nodes(s[0].0) + data_nodes(s[0].1) + pairs_nodes(s.subrange(1, s.len() as int))
    }
}

/// Counting nodes of one more item.
proof fn lemma_datas_nodes_push(s: Seq<DataV>, x: DataV)
    ensures
        datas_nodes(s.push(x)) == datas_nodes(s) + data_nodes(x),
    decreases s.len(),
{
    if s.len() == 0 {
        assert(s.push(x).subrange(1, 1) =~= Seq::<DataV>::empty());
        assert(datas_nodes(Seq::<DataV>::empty()) == 0);
    } else {
        lemma_datas_nodes_push(s.subrange(1, s.len() as int), x);
        assert(s.push(x).subrange(1, s.len() + 1int) =~= s.subrange(1, s.len() as int).push(x));
    }
}

/// Counting nodes of one more entry.
proof fn lemma_pairs_nodes_push(s: Seq<(DataV, DataV)>, x: (DataV, DataV))
    ensures
        pairs_nodes(s.push(x)) == pairs_nodes(s) + data_nodes(x.0) + data_nodes(x.1),
    decreases s.len(),
{
    if s.len() == 0 {
        assert(s.push(x).subrange(1, 1) =~= Seq::<(DataV, DataV)>::empty());
        assert(pairs_nodes(Seq::<(DataV, DataV)>::empty()) == 0);
    } else {
        lemma_pairs_nodes_push(s.subrange(1, s.len() as int), x);
        assert(s.push(x).subrange(1, s.len() + 1int) =~= s.subrange(1, s.len() as int).push(x));
    }
}

/// Adding counts saturates like adding them exactly and saturating once.
proof fn lemma_saturating_sum(a: int, b: int)
    requires
        a >= 0,
        b >= 0,
    ensures
        clamp_i64(clamp_i64(a) + clamp_i64(b)) == clamp_i64(a + b),
{
}

/// The number of nodes of a data item, itself included, saturating at the
/// bounds of `i64`.
pub fn data_node_count(d: &PlutusData) -> (r: i64)
    ensures
        r == clamp_i64(data_nodes(d@) as int),
    decreases d, 1nat,
{
    match d {
        PlutusData::Constr { fields, .. } => {
            let n = items_node_count(d, fields);
            proof {
                lemma_saturating_sum(1, datas_nodes(datas_view(fields@)) as int);
            }
            saturating_add_i64(1, n)
        },
        PlutusData::List(items) => {
            let n = items_node_count(d, items);
            proof {
                lemma_saturating_sum(1, datas_nodes(datas_view(items@)) as int);
            }
            saturating_add_i64(1, n)
        },
        PlutusData::AssocList(entries) => {
            let mut total: i64 = 0;
            let mut i: usize = 0;
            assert(entries@.subrange(0, 0) =~= Seq::<(PlutusData, PlutusData)>::empty());
            while i < entries.len()
                invariant
                    i <= entries.len(),
                    *d == PlutusData::AssocList(*entries),
                    total == clamp_i64(pairs_nodes(pairs_view(entries@.subrange(0, i as int))) as int),
                decreases entries.len() - i,
            {
                proof {
                    assert(decreases_to!(*entries => entries@));
                    assert(decreases_to!(entries@ => entries@[i as int]));
                    assert(decreases_to!(*d => (*d)->AssocList_0));
                }
                let k = data_node_count(&entries[i].0);
                let v = data_node_count(&entries[i].1);
                proof {
                    let before = pairs_view(entries@.subrange(0, i as int));
                    lemma_pairs_view_push(entries@.subrange(0, i as int), entries@[i as int]);
                    assert(entries@.subrange(0, i as int).push(entries@[i as int]) =~= entries@.subrange(0, i + 1));
                    lemma_pairs_nodes_push(before, (data_view(entries@[i as int].0), data_view(entries@[i as int].1)));
                    lemma_saturating_sum(pairs_nodes(before) as int, data_nodes(data_view(entries@[i as int].0)) as int);
                    lemma_saturating_sum(
                        (pairs_nodes(before) + data_nodes(data_view(entries@[i as int].0))) as int,
                        data_nodes(data_view(entries@[i as int].1)) as int,
                    );
                }
                total = saturating_add_i64(saturating_add_i64(total, k), v);
                i += 1;
            }
            assert(entries@.subrange(0, i as int) =~= entries@);
            proof {
                lemma_saturating_sum(1, pairs_nodes(pairs_view(entries@)) as int);
            }
            saturating_add_i64(1, total)
        },
        _ => 1,
    }
}

/// The number of nodes of the fields of a constructor or the items of a
/// list, saturating at the bounds of `i64`.
fn items_node_count(parent: &PlutusData, items: &Vec<PlutusData>) -> (r: i64)
    requires
        *parent == (PlutusData::List(*items)) || (parent matches PlutusData::Constr { fields, .. } && fields == *items),
    ensures
        r == clamp_i64(datas_nodes(datas_view(items@)) as int),
    decreases parent, 0nat,
{
    let mut total: i64 = 0;
    let mut i: usize = 0;
    assert(items@.subrange(0, 0) =~= Seq::<PlutusData>::empty());
    while i < items.len()
        invariant
            i <= items.len(),
            *parent == (PlutusData::List(*items)) || (parent matches PlutusData::Constr { fields, .. } && fields == *items),
            total == clamp_i64(datas_nodes(datas_view(items@.subrange(0, i as int))) as int),
        decreases items.len() - i,
    {
        proof {
            assert(decreases_to!(*items => items@));
            assert(decreases_to!(items@ => items@[i as int]));
            if parent is List {
                assert(decreases_to!(*parent => (*parent)->List_0));
            } else {
                assert(decreases_to!(*parent => (*parent)->fields));
            }
        }
        let n = data_node_count(&items[i]);
        proof {
            let before = datas_view(items@.subrange(0, i as int));
            lemma_datas_view_push(items@.subrange(0, i as int), items@[i as int]);
            assert(items@.subrange(0, i as int).push(items@[i as int]) =~= items@.subrange(0, i + 1));
            lemma_datas_nodes_push(before, data_view(items@[i as int]));
            lemma_saturating_sum(datas_nodes(before) as int, data_nodes(data_view(items@[i as int])) as int);
        }
        total = saturating_add_i64(total, n);
        i += 1;
    }
    assert(items@.subrange(0, i as int) =~= items@);
    total
}

} // verus!
