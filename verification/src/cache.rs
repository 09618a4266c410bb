//! The symbol cache: every cached record, in creation order, unique by
//! ticker.  A record's `cache_index` is its position and never changes;
//! records are only ever appended, so an index handed out stays valid for
//! the life of the process.

use vstd::prelude::*;

use crate::codec::{
    cache_model, cache_persist_wf, decode_cache, enc_cache, encode_cache, lemma_cache_round_trip,
    spec_decode, StockModel,
};
use crate::metrics::metrics_empty;
use crate::other::other_empty;
use crate::statements::statements_empty;
use crate::stock::Stock;

verus! {

/// The shared collection of per-symbol records.
#[derive(Clone, Debug, PartialEq)]
pub struct SymbolCache {
    pub stocks: Vec<Stock>,
}

/// Every record's `cache_index` is its position in the cache.
pub open spec fn cache_wf(s: Seq<Stock>) -> bool {
    forall|i: int| 0 <= i < s.len() ==> (#[trigger] s[i].cache_index) == Some(i as usize)
}

/// No two records share a ticker.
pub open spec fn tickers_unique(s: Seq<Stock>) -> bool {
    forall|i: int, j: int|
        0 <= i < j < s.len() ==> (#[trigger] s[i].ticker)@ != (#[trigger] s[j].ticker)@
}

/// `i` is the position of the first record with ticker `t`.
pub open spec fn is_first_match(s: Seq<Stock>, t: Seq<char>, i: int) -> bool {
    &&& 0 <= i < s.len()
    &&& s[i].ticker@ == t
    &&& forall|j: int| 0 <= j < i ==> (#[trigger] s[j].ticker)@ != t
}

/// No record has ticker `t`.
pub open spec fn no_match(s: Seq<Stock>, t: Seq<char>) -> bool {
    forall|j: int| 0 <= j < s.len() ==> (#[trigger] s[j].ticker)@ != t
}

/// What one get-or-create call does: when a record with the ticker
/// exists, the cache is unchanged and the first such record's position is
/// returned; otherwise exactly one fresh record for the ticker is
/// appended, its `cache_index` set to its position, and that position is
/// returned.
pub open spec fn get_or_create_post(pre: Seq<Stock>, post: Seq<Stock>, t: Seq<char>, i: int) -> bool {
    if no_match(pre, t) {
        &&& i == pre.len()
        &&& post.len() == pre.len() + 1
        &&& forall|j: int| 0 <= j < pre.len() ==> (#[trigger] post[j]) == pre[j]
        &&& post[i].ticker@ == t
        &&& post[i].cache_index == Some(pre.len() as usize)
        &&& statements_empty(post[i].statements)
        &&& metrics_empty(post[i].metrics)
        &&& other_empty(post[i].other)
    } else {
        &&& post =~= pre
        &&& is_first_match(pre, t, i)
    }
}

impl SymbolCache {
    /// An empty cache.
    pub fn new() -> (r: Self)
        ensures
            r.stocks@.len() == 0,
    {
        Self { stocks: Vec::new() }
    }

    /// Position of the first record for `ticker`, if any.
    pub fn stock_index_in_cache(&self, ticker: &String) -> (r: Option<usize>)
        ensures
            match r {
                Some(i) => is_first_match(self.stocks@, ticker@, i as int),
                None => no_match(self.stocks@, ticker@),
            },
    {
        let n = self.stocks.len();
        let mut i: usize = 0;
        while i < n
            invariant
                0 <= i <= n,
                n == self.stocks@.len(),
                forall|j: int| 0 <= j < i ==> (#[trigger] self.stocks@[j].ticker)@ != ticker@,
            decreases n - i,
        {
            if self.stocks[i].ticker == *ticker {
                return Some(i);
            }
            i = i + 1;
        }
        None
    }

    /// Appends `stock`, stamping it with its position, and returns that
    /// position.
    pub fn add_stock(&mut self, stock: Stock) -> (r: usize)
        requires
            old(self).stocks@.len() < usize::MAX,
        ensures
            r == old(self).stocks@.len(),
            final(self).stocks@ =~= old(self).stocks@.push(
                Stock { cache_index: Some(r), ..stock },
            ),
    {
        let length = self.stocks.len();
        let mut stock = stock;
        stock.set_cache_index(Some(length));
        self.stocks.push(stock);
        length
    }

    /// Looks `symbol` up; when absent, creates a fresh record for it.
    /// Either way the returned position identifies the one record for
    /// `symbol`, and calling again with the same symbol returns the same
    /// position (see [`lemma_get_or_create_idempotent`]).
    pub fn get_or_add_stock(&mut self, symbol: String) -> (r: usize)
        requires
            old(self).stocks@.len() < usize::MAX,
        ensures
            get_or_create_post(old(self).stocks@, final(self).stocks@, symbol@, r as int),
    {
        let existing = self.stock_index_in_cache(&symbol);
        match existing {
            Some(i) => i,
            None => self.add_stock(Stock::new(symbol)),
        }
    }
}

/// Get-or-create preserves the cache's two structural invariants:
/// positions stay stamped and tickers stay unique.
pub proof fn lemma_get_or_create_preserves_wf(
    pre: Seq<Stock>,
    post: Seq<Stock>,
    t: Seq<char>,
    i: int,
)
    requires
        cache_wf(pre),
        tickers_unique(pre),
        get_or_create_post(pre, post, t, i),
    ensures
        cache_wf(post),
        tickers_unique(post),
{
    if no_match(pre, t) {
        assert forall|a: int, b: int| 0 <= a < b < post.len() implies (#[trigger] post[a].ticker)@
            != (#[trigger] post[b].ticker)@ by {
            if b == pre.len() {
                assert(post[a] == pre[a]);
            }
        }
    }
}

/// Creation is idempotent: two get-or-create calls with the same ticker
/// return the same position, the second call leaves the cache unchanged,
/// and the record at that position carries that position as its
/// `cache_index`.
pub proof fn lemma_get_or_create_idempotent(
    s0: Seq<Stock>,
    s1: Seq<Stock>,
    s2: Seq<Stock>,
    t: Seq<char>,
    i1: int,
    i2: int,
)
    requires
        cache_wf(s0),
        get_or_create_post(s0, s1, t, i1),
        get_or_create_post(s1, s2, t, i2),
    ensures
        i2 == i1,
        s2 =~= s1,
        s1[i1].cache_index == Some(i1 as usize),
{
    if no_match(s0, t) {
        assert(s1[i1].ticker@ == t);
        assert(!no_match(s1, t));
        assert(is_first_match(s1, t, i2));
        assert(forall|j: int| 0 <= j < i1 ==> (#[trigger] s1[j]) == s0[j]);
        assert(i2 == i1);
    } else {
        assert(is_first_match(s0, t, i1));
        assert(s1 =~= s0);
        assert(!no_match(s1, t));
        assert(is_first_match(s1, t, i2));
        assert(i2 == i1);
    }
}


/// Every decoded record's `cache_index` is its position.
pub open spec fn model_cache_wf(ms: Seq<StockModel>) -> bool {
    forall|i: int| 0 <= i < ms.len() ==> (#[trigger] ms[i].cache_index) == Some(i as usize)
}

/// No two decoded records share a ticker.
pub open spec fn model_tickers_unique(ms: Seq<StockModel>) -> bool {
    forall|i: int, j: int|
        0 <= i < j < ms.len() ==> (#[trigger] ms[i].ticker) != (#[trigger] ms[j].ticker)
}

impl SymbolCache {
    /// Serializes the whole cache to its persisted JSON text.
    pub fn to_json(&self) -> (r: Vec<char>)
        ensures
            r@ == enc_cache(cache_model(self.stocks@)),
    {
        encode_cache(&self.stocks)
    }
}

/// Rebuilds the cache from persisted text.  A text that does not decode,
/// or decodes to records whose positions, tickers or quarterly income
/// amounts are unusable, yields the empty cache: loading never fails.
#[verifier::rlimit(100)]
#[verifier::spinoff_prover]
pub fn state_from_json(text: &Vec<char>) -> (c: SymbolCache)
    ensures
        cache_wf(c.stocks@),
        tickers_unique(c.stocks@),
        match spec_decode(text@) {
            Some(ms) => if model_cache_wf(ms) && model_tickers_unique(ms) {
                cache_model(c.stocks@) == ms
            } else {
                c.stocks@.len() == 0
            },
            None => c.stocks@.len() == 0,
        },
{
    match decode_cache(text) {
        None => SymbolCache { stocks: Vec::new() },
        Some(stocks) => {
            let ghost ms = cache_model(stocks@);
            let n = stocks.len();
            let mut ok = true;
            let mut i: usize = 0;
            while i < n
                invariant
                    0 <= i <= n,
                    n == stocks@.len(),
                    ms == cache_model(stocks@),
                    ok == (forall|k: int|
                        0 <= k < i ==> (#[trigger] stocks@[k].cache_index) == Some(k as usize)),
                decreases n - i,
            {
                let fine = match stocks[i].cache_index {
                    Some(u) => u == i,
                    None => false,
                };
                if !fine {
                    ok = false;
                }
                i = i + 1;
            }
            let mut uniq = true;
            let mut a: usize = 0;
            while a < n
                invariant
                    0 <= a <= n,
                    n == stocks@.len(),
                    ms == cache_model(stocks@),
                    uniq == (forall|x: int, y: int|
                        0 <= x < y < stocks@.len() && x < a ==> (#[trigger] stocks@[x].ticker)@
                            != (#[trigger] stocks@[y].ticker)@),
                decreases n - a,
            {
                let mut b: usize = a + 1;
                while b < n
                    invariant
                        0 <= a < b <= n,
                        n == stocks@.len(),
                        ms == cache_model(stocks@),
                        uniq == (forall|x: int, y: int|
                            0 <= x < y < stocks@.len() && (x < a || (x == a && y < b)) ==> (
                            #[trigger] stocks@[x].ticker)@ != (#[trigger] stocks@[y].ticker)@),
                    decreases n - b,
                {
                    if stocks[a].ticker == stocks[b].ticker {
                        uniq = false;
                    }
                    b = b + 1;
                }
                a = a + 1;
            }
            if ok && uniq {
                proof {
                    assert forall|k: int|
                        0 <= k < ms.len() implies (#[trigger] ms[k].cache_index) == Some(
                        k as usize,
                    ) by {
                        assert(ms[k] == crate::codec::stock_model(stocks@[k]));
                    }
                    assert forall|x: int, y: int|
                        0 <= x < y < ms.len() implies (#[trigger] ms[x].ticker) != (
                    #[trigger] ms[y].ticker) by {
                        assert(ms[x] == crate::codec::stock_model(stocks@[x]));
                        assert(ms[y] == crate::codec::stock_model(stocks@[y]));
                    }
                }
                SymbolCache { stocks }
            } else {
                proof {
                    if ok {
                        assert(!(forall|x: int, y: int|
                            0 <= x < y < stocks@.len() ==> (#[trigger] stocks@[x].ticker)@ != (
                            #[trigger] stocks@[y].ticker)@));
                        assert(!model_tickers_unique(ms)) by {
                            let (x, y) = choose|x: int, y: int|
                                0 <= x < y < stocks@.len() && (#[trigger] stocks@[x].ticker)@ == (
                                #[trigger] stocks@[y].ticker)@;
                            assert(ms[x] == crate::codec::stock_model(stocks@[x]));
                            assert(ms[y] == crate::codec::stock_model(stocks@[y]));
                            assert(ms[x].ticker == ms[y].ticker);
                        }
                    } else {
                        assert(!(forall|k: int|
                            0 <= k < stocks@.len() ==> (#[trigger] stocks@[k].cache_index) == Some(
                                k as usize,
                            )));
                        let k = choose|k: int|
                            !(0 <= k < stocks@.len() ==> (#[trigger] stocks@[k].cache_index)
                                == Some(k as usize));
                        assert(ms[k] == crate::codec::stock_model(stocks@[k]));
                        assert(0 <= k < ms.len());
                        assert(ms[k].cache_index == stocks@[k].cache_index);
                        assert(ms[k].cache_index != Some(k as usize));
                        assert(!model_cache_wf(ms));
                    }
                }
                SymbolCache { stocks: Vec::new() }
            }
        },
    }
}

/// The persistence bounds every real cache meets: quarterly income is
/// installed bounded, horizons come from requests of at most 255
/// periods, and a record's position fits far below the signed range.
pub open spec fn cache_bounds_ok(stocks: Seq<Stock>) -> bool {
    cache_persist_wf(cache_model(stocks))
}

/// Persistence round trip: a well-formed cache written by `to_json` and
/// read back by `state_from_json` is reproduced exactly, provenance
/// fields included.
pub proof fn lemma_persistence_round_trip(stocks: Seq<Stock>)
    requires
        cache_wf(stocks),
        tickers_unique(stocks),
        cache_bounds_ok(stocks),
    ensures
        spec_decode(enc_cache(cache_model(stocks))) == Some(cache_model(stocks)),
        model_cache_wf(cache_model(stocks)),
        model_tickers_unique(cache_model(stocks)),
{
    lemma_cache_round_trip(cache_model(stocks));
    let ms = cache_model(stocks);
    assert forall|k: int|
        0 <= k < ms.len() implies (#[trigger] ms[k].cache_index) == Some(k as usize) by {
        assert(ms[k] == crate::codec::stock_model(stocks[k]));
    }
    assert forall|x: int, y: int|
        0 <= x < y < ms.len() implies (#[trigger] ms[x].ticker) != (#[trigger] ms[y].ticker) by {
        assert(ms[x] == crate::codec::stock_model(stocks[x]));
        assert(ms[y] == crate::codec::stock_model(stocks[y]));
    }
}

} // verus!
