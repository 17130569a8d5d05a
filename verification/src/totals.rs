use vstd::prelude::*;
use crate::store::{level_in_range, levels_bounded, QTY_LIMIT};
use crate::types::StockLevel;

verus! {

/// Sum of the quantities of the levels.
pub open spec fn sum_quantity(s: Seq<StockLevel>) -> int
    decreases s.len(),
{
    if s.len() == 0 {
        0
    } else {
        sum_quantity(s.drop_last()) + s.last().quantity
    }
}

/// Sum of the reserved quantities of the levels.
pub open spec fn sum_reserved(s: Seq<StockLevel>) -> int
    decreases s.len(),
{
    if s.len() == 0 {
        0
    } else {
        sum_reserved(s.drop_last()) + s.last().reserved
    }
}

/// Sum of on-hand quantities of the SKU over every location.
pub open spec fn total_on_hand(s: Seq<StockLevel>, sku: Seq<char>) -> int
    decreases s.len(),
{
    if s.len() == 0 {
        0
    } else {
        total_on_hand(s.drop_last(), sku) + if s.last().sku@ == sku {
            s.last().quantity as int
        } else {
            0
        }
    }
}

/// Sum of available quantities (on hand less reserved) of the SKU over every location.
pub open spec fn total_available(s: Seq<StockLevel>, sku: Seq<char>) -> int
    decreases s.len(),
{
    if s.len() == 0 {
        0
    } else {
        total_available(s.drop_last(), sku) + if s.last().sku@ == sku {
            s.last().quantity - s.last().reserved
        } else {
            0
        }
    }
}

/// Sum of on-hand quantities of every SKU at the location.
pub open spec fn units_at(s: Seq<StockLevel>, loc: Seq<char>) -> int
    decreases s.len(),
{
    if s.len() == 0 {
        0
    } else {
        units_at(s.drop_last(), loc) + if s.last().location_id@ == loc {
            s.last().quantity as int
        } else {
            0
        }
    }
}

/// The bound on a sum of `n` in-range terms of two levels each.
pub open spec fn sum_bound(n: int) -> int {
    n * (2 * QTY_LIMIT)
}

/// No sum of levels exceeds this in magnitude (2^125), so that the difference of two
/// such sums still fits in `i128`.
pub open spec fn sum_limit() -> int {
    0x2000_0000_0000_0000_0000_0000_0000_0000
}

/// One more term keeps a sum of fewer than 2^64 terms within `i128`.
pub proof fn lemma_sum_bound(i: int)
    requires
        0 <= i < 0x1_0000_0000_0000_0000,
    ensures
        sum_bound(i + 1) == sum_bound(i) + 2 * QTY_LIMIT,
        sum_bound(i + 1) <= sum_limit(),
        0 <= sum_bound(i),
{
    assert(sum_bound(i + 1) == sum_bound(i) + 2 * QTY_LIMIT) by (nonlinear_arith);
    assert(sum_bound(i + 1) <= 0x1_0000_0000_0000_0000 * (2 * QTY_LIMIT)) by (nonlinear_arith)
        requires
            i + 1 <= 0x1_0000_0000_0000_0000,
    ;
    assert(0 <= sum_bound(i)) by (nonlinear_arith)
        requires
            0 <= i,
    ;
}

/// Sums of the quantities and of the reserved quantities of the levels.
pub fn sum_levels(levels: &Vec<StockLevel>) -> (r: (i128, i128))
    requires
        levels_bounded(levels@),
    ensures
        r.0 == sum_quantity(levels@),
        r.1 == sum_reserved(levels@),
        -sum_limit() <= r.0 <= sum_limit(),
        -sum_limit() <= r.1 <= sum_limit(),
{
    let mut q: i128 = 0;
    let mut res: i128 = 0;
    let mut i: usize = 0;
    while i < levels.len()
        invariant
            i <= levels.len(),
            levels_bounded(levels@),
            q == sum_quantity(levels@.take(i as int)),
            res == sum_reserved(levels@.take(i as int)),
            -sum_bound(i as int) <= q <= sum_bound(i as int),
            -sum_bound(i as int) <= res <= sum_bound(i as int),
        decreases levels.len() - i,
    {
        proof {
            lemma_sum_bound(i as int);
            assert(level_in_range(levels@[i as int]));
            assert(levels@.take(i + 1).drop_last() =~= levels@.take(i as int));
        }
        q = q + levels[i].quantity as i128;
        res = res + levels[i].reserved as i128;
        i = i + 1;
    }
    assert(levels@.take(levels.len() as int) =~= levels@);
    (q, res)
}

/// Sum of available quantities of the SKU over every location.
pub fn available_total(stock: &Vec<StockLevel>, sku: &String) -> (r: i128)
    requires
        levels_bounded(stock@),
    ensures
        r == total_available(stock@, sku@),
        -sum_limit() <= r <= sum_limit(),
{
    let mut acc: i128 = 0;
    let mut i: usize = 0;
    while i < stock.len()
        invariant
            i <= stock.len(),
            levels_bounded(stock@),
            acc == total_available(stock@.take(i as int), sku@),
            -sum_bound(i as int) <= acc <= sum_bound(i as int),
        decreases stock.len() - i,
    {
        proof {
            lemma_sum_bound(i as int);
            assert(level_in_range(stock@[i as int]));
            assert(stock@.take(i + 1).drop_last() =~= stock@.take(i as int));
        }
        if stock[i].sku.eq(sku) {
            acc = acc + (stock[i].quantity as i128 - stock[i].reserved as i128);
        }
        i = i + 1;
    }
    assert(stock@.take(stock.len() as int) =~= stock@);
    proof {
        if stock.len() > 0 {
            lemma_sum_bound(stock.len() - 1);
        }
    }
    acc
}

/// Sum of on-hand quantities of every SKU at the location.
pub fn location_units(stock: &Vec<StockLevel>, loc: &String) -> (r: i128)
    requires
        levels_bounded(stock@),
    ensures
        r == units_at(stock@, loc@),
        -sum_limit() <= r <= sum_limit(),
{
    let mut acc: i128 = 0;
    let mut i: usize = 0;
    while i < stock.len()
        invariant
            i <= stock.len(),
            levels_bounded(stock@),
            acc == units_at(stock@.take(i as int), loc@),
            -sum_bound(i as int) <= acc <= sum_bound(i as int),
        decreases stock.len() - i,
    {
        proof {
            lemma_sum_bound(i as int);
            assert(level_in_range(stock@[i as int]));
            assert(stock@.take(i + 1).drop_last() =~= stock@.take(i as int));
        }
        if stock[i].location_id.eq(loc) {
            acc = acc + stock[i].quantity as i128;
        }
        i = i + 1;
    }
    assert(stock@.take(stock.len() as int) =~= stock@);
    proof {
        if stock.len() > 0 {
            lemma_sum_bound(stock.len() - 1);
        }
    }
    acc
}

/// Replacing one level changes the SKU's total on hand by the difference it makes.
pub proof fn lemma_total_on_hand_update(s: Seq<StockLevel>, i: int, x: StockLevel, sku: Seq<char>)
    requires
        0 <= i < s.len(),
    ensures
        total_on_hand(s.update(i, x), sku) == total_on_hand(s, sku) - (if s[i].sku@ == sku {
            s[i].quantity as int
        } else {
            0
        }) + (if x.sku@ == sku {
            x.quantity as int
        } else {
            0
        }),
    decreases s.len(),
{
    let t = s.update(i, x);
    if i == s.len() - 1 {
        assert(t.drop_last() =~= s.drop_last());
    } else {
        assert(t.drop_last() =~= s.drop_last().update(i, x));
        lemma_total_on_hand_update(s.drop_last(), i, x, sku);
    }
}

/// Appending a level adds its quantity to its SKU's total on hand.
pub proof fn lemma_total_on_hand_push(s: Seq<StockLevel>, x: StockLevel, sku: Seq<char>)
    ensures
        total_on_hand(s.push(x), sku) == total_on_hand(s, sku) + (if x.sku@ == sku {
            x.quantity as int
        } else {
            0
        }),
{
    assert(s.push(x).drop_last() =~= s);
}

} // verus!
