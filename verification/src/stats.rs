//! The parts of cost statistics that are not arithmetic on prices: which
//! exchange rates to ask for, and under which names costs are grouped.

use vstd::prelude::*;

use crate::text::str_eq;

verus! {

/// The texts of a list of strings.
pub open spec fn texts(v: Seq<String>) -> Seq<Seq<char>> {
    v.map_values(|s: String| s@)
}

/// The items joined by `sep`.
pub open spec fn joined(items: Seq<Seq<char>>, sep: Seq<char>) -> Seq<char>
    decreases items.len(),
{
    if items.len() == 0 {
        Seq::empty()
    } else if items.len() == 1 {
        items[0]
    } else {
        joined(items.drop_last(), sep) + sep + items.last()
    }
}

/// The currencies other than `base`, in order.
pub open spec fn foreign(currencies: Seq<Seq<char>>, base: Seq<char>) -> Seq<Seq<char>> {
    currencies.filter(|c: Seq<char>| c != base)
}

/// Which exchange rates a statistics request needs.
#[derive(Debug)]
pub enum RatePlan {
    /// There are no costs, so no rates.
    NoCurrencies,
    /// Every cost is already in the base currency, whose rate is one.
    BaseOnly,
    /// The rates of `need` to the base currency must be fetched; `quotes` is
    /// the `quotes` parameter of the request: `need` and then the base
    /// currency, separated by commas.
    Fetch { need: Vec<String>, quotes: String },
}

/// Plans the exchange-rate request for the currencies that costs are in.
pub fn plan_rate_fetch(currencies: &Vec<String>, base: &str) -> (r: RatePlan)
    ensures
        ({
            let need = foreign(texts(currencies@), base@);
            if currencies@.len() == 0 {
                r is NoCurrencies
            } else if need.len() == 0 {
                r is BaseOnly
            } else {
                r matches RatePlan::Fetch { need: n, quotes: q } && texts(n@) == need && q@
                    == joined(need.push(base@), ","@)
            }
        }),
{
    if currencies.len() == 0 {
        return RatePlan::NoCurrencies;
    }
    let mut need: Vec<String> = Vec::new();
    let mut quotes = String::new();
    let ghost all = texts(currencies@);
    let mut i: usize = 0;
    while i < currencies.len()
        invariant
            i <= currencies@.len(),
            all == texts(currencies@),
            texts(need@) == foreign(all.take(i as int), base@),
            quotes@ == joined(texts(need@), ","@),
        decreases currencies@.len() - i,
    {
        proof {
            assert(all.take(i as int + 1).drop_last() =~= all.take(i as int));
            assert(all.take(i as int + 1).last() == currencies@[i as int]@);
            assert(all.take(i as int + 1) =~= all.take(i as int).push(currencies@[i as int]@));
            lemma_filter_push(all.take(i as int), currencies@[i as int]@, base@);
        }
        let c = &currencies[i];
        if !str_eq(c.as_str(), base) {
            let ghost before = texts(need@);
            if need.len() > 0 {
                quotes.append(",");
            }
            quotes.append(c.as_str());
            need.push(c.clone());
            proof {
                assert(texts(need@) =~= before.push(c@));
                assert(texts(need@).drop_last() =~= before);
            }
        } else {
            proof {
                assert(texts(need@) == foreign(all.take(i as int + 1), base@));
            }
        }
        i += 1;
    }
    proof {
        assert(all.take(currencies@.len() as int) =~= all);
    }
    if need.len() == 0 {
        return RatePlan::BaseOnly;
    }
    proof {
        let n = texts(need@);
        assert(n.push(base@).drop_last() =~= n);
    }
    quotes.append(",");
    quotes.append(base);
    RatePlan::Fetch { need, quotes }
}

proof fn lemma_filter_push(s: Seq<Seq<char>>, x: Seq<char>, base: Seq<char>)
    ensures
        foreign(s.push(x), base) == (if x != base { foreign(s, base).push(x) } else { foreign(s, base) }),
{
    reveal(Seq::filter);
    assert(s.push(x).drop_last() =~= s);
}

/// The currency a cost is grouped under: its own, or `CNY` when it has none.
pub fn currency_key(currency: &str) -> (r: &str)
    ensures
        r@ == (if currency@.len() == 0 { "CNY"@ } else { currency@ }),
{
    if currency.unicode_len() == 0 {
        "CNY"
    } else {
        currency
    }
}

/// The category a cost is grouped under: its own, or `其他` when it has none.
pub fn category_key(category: &str) -> (r: &str)
    ensures
        r@ == (if category@.len() == 0 { "其他"@ } else { category@ }),
{
    if category.unicode_len() == 0 {
        "其他"
    } else {
        category
    }
}

} // verus!
