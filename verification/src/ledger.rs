//! Price ledger: one connection's store of `(timestamp, price)` observations.
//!
//! Insertion appends unconditionally: duplicate timestamps, negative
//! timestamps and negative prices are all valid, and nothing is ever removed
//! or overwritten. A range query selects every observation whose timestamp
//! lies in the inclusive window and returns the arithmetic mean of the
//! selected prices, truncated toward zero, or `0` when nothing is selected
//! (in particular whenever the window is inverted). The sum is carried in
//! 128 bits, which cannot overflow for any number of 32-bit prices that fits
//! in memory.

use vstd::prelude::*;
use vstd::multiset::Multiset;

verus! {

/// One immutable price observation.
#[derive(Clone, Copy, PartialEq, Eq, Structural, Debug)]
pub struct Observation {
    /// When the price was observed, in the client's epoch.
    pub timestamp: i32,
    /// The price observed, in the client's unit.
    pub price: i32,
}

/// True when `o`'s timestamp lies in the inclusive window `min..=max`.
pub open spec fn in_window(o: Observation, min: int, max: int) -> bool {
    min <= o.timestamp as int && o.timestamp as int <= max
}

/// The observations of `obs` whose timestamps lie in `min..=max`, in order.
pub open spec fn selected(obs: Seq<Observation>, min: int, max: int) -> Seq<Observation> {
    obs.filter(|o: Observation| in_window(o, min, max))
}

/// The sum of the prices of `obs`.
pub open spec fn price_sum(obs: Seq<Observation>) -> int
    decreases obs.len(),
{
    if obs.len() == 0 {
        0
    } else {
        price_sum(obs.drop_last()) + obs.last().price as int
    }
}

/// `total / count` truncated toward zero. Since Verus's `/` on `int` rounds
/// toward negative infinity, a negative total is divided by magnitude.
pub open spec fn mean_trunc(total: int, count: int) -> int
    recommends
        count > 0,
{
    if total >= 0 {
        total / count
    } else {
        -((-total) / count)
    }
}

/// The reply to a query over `min..=max` against `obs`: the truncated mean
/// of the selected prices, and `0` when the selection is empty.
pub open spec fn spec_query_mean(obs: Seq<Observation>, min: int, max: int) -> int {
    let sel = selected(obs, min, max);
    if sel.len() == 0 {
        0
    } else {
        mean_trunc(price_sum(sel), sel.len() as int)
    }
}

/// A connection's private, append-only store of observations.
pub struct PriceLedger {
    obs: Vec<Observation>,
}

impl View for PriceLedger {
    type V = Seq<Observation>;

    closed spec fn view(&self) -> Seq<Observation> {
        self.obs@
    }
}

impl PriceLedger {
    /// A fresh ledger with no observations.
    pub fn new() -> (ledger: Self)
        ensures
            ledger@ == Seq::<Observation>::empty(),
    {
        PriceLedger { obs: Vec::new() }
    }

    /// Appends one observation. Always succeeds and never displaces an
    /// earlier observation, also when the timestamp repeats.
    pub fn insert(&mut self, timestamp: i32, price: i32)
        ensures
            final(self)@ == old(self)@.push(Observation { timestamp, price }),
    {
        self.obs.push(Observation { timestamp, price });
    }

    /// The truncated mean price over the inclusive window
    /// `min_time..=max_time`, `0` when no observation falls in the window —
    /// in particular whenever `min_time > max_time`.
    pub fn query_mean(&self, min_time: i32, max_time: i32) -> (mean: i32)
        ensures
            mean as int == spec_query_mean(self@, min_time as int, max_time as int),
            min_time > max_time ==> mean == 0,
    {
        let ghost min = min_time as int;
        let ghost max = max_time as int;
        let mut total: i128 = 0;
        let mut count: usize = 0;
        let mut i: usize = 0;
        while i < self.obs.len()
            invariant
                min == min_time as int,
                max == max_time as int,
                i <= self.obs@.len(),
                count == selected(self.obs@.subrange(0, i as int), min, max).len(),
                count <= i,
                total == price_sum(selected(self.obs@.subrange(0, i as int), min, max)),
                -(count as int) * 0x8000_0000 <= total as int,
                total as int <= (count as int) * 0x7fff_ffff,
            decreases self.obs@.len() - i,
        {
            let o = self.obs[i];
            proof {
                let pre = self.obs@.subrange(0, i as int);
                assert(self.obs@.subrange(0, i as int + 1) =~= pre.push(o));
                assert(pre.push(o).drop_last() =~= pre);
                lemma_selected_push(pre, o, min, max);
                if in_window(o, min, max) {
                    let sel = selected(pre, min, max);
                    assert(sel.push(o).drop_last() =~= sel);
                    assert(price_sum(sel.push(o)) == price_sum(sel) + o.price as int);
                    assert((count + 1) * 0x8000_0000 == count * 0x8000_0000 + 0x8000_0000)
                        by (nonlinear_arith);
                    assert((count + 1) * 0x7fff_ffff == count * 0x7fff_ffff + 0x7fff_ffff)
                        by (nonlinear_arith);
                }
            }
            if min_time <= o.timestamp && o.timestamp <= max_time {
                total = total + o.price as i128;
                count = count + 1;
            }
            i = i + 1;
        }
        proof {
            assert(self.obs@.subrange(0, self.obs@.len() as int) =~= self.obs@);
        }
        if count == 0 {
            return 0;
        }
        let mean: i32;
        if total >= 0 {
            let q: u128 = (total as u128) / (count as u128);
            proof {
                lemma_div_bound_upper(total as int, count as int, 0x7fff_ffff);
            }
            mean = q as i32;
        } else {
            let q: u128 = ((-total) as u128) / (count as u128);
            proof {
                lemma_div_bound_upper(-(total as int), count as int, 0x8000_0000);
            }
            mean = -(q as i64) as i32;
        }
        mean
    }
}

/// Selecting over a window commutes with appending one observation: the
/// appended observation joins the selection exactly when its timestamp lies
/// in the window.
pub proof fn lemma_selected_push(obs: Seq<Observation>, o: Observation, min: int, max: int)
    ensures
        selected(obs.push(o), min, max) == if in_window(o, min, max) {
            selected(obs, min, max).push(o)
        } else {
            selected(obs, min, max)
        },
{
    assert(obs.push(o).drop_last() =~= obs);
    reveal_with_fuel(Seq::filter, 2);
}

/// An inverted window (`min > max`) selects nothing, so a query over it
/// answers `0` whatever the ledger holds.
pub proof fn lemma_inverted_window_zero(obs: Seq<Observation>, min: int, max: int)
    requires
        min > max,
    ensures
        spec_query_mean(obs, min, max) == 0,
{
    let pred = |o: Observation| in_window(o, min, max);
    assert(obs.all(|o: Observation| !pred(o)));
    obs.lemma_all_neg_filter_empty(pred);
}

/// Two observations sharing one timestamp are both retained by insertion,
/// and a window covering that timestamp selects both, so both enter the
/// mean: the selection grows by exactly those two prices.
pub proof fn lemma_duplicate_timestamps_selected(
    obs: Seq<Observation>,
    t: i32,
    p1: i32,
    p2: i32,
    min: int,
    max: int,
)
    requires
        min <= t as int <= max,
    ensures
        ({
            let o1 = Observation { timestamp: t, price: p1 };
            let o2 = Observation { timestamp: t, price: p2 };
            let sel = selected(obs, min, max);
            let sel2 = selected(obs.push(o1).push(o2), min, max);
            sel2 == sel.push(o1).push(o2) && price_sum(sel2) == price_sum(sel) + p1 + p2
                && sel2.len() == sel.len() + 2
        }),
{
    let o1 = Observation { timestamp: t, price: p1 };
    let o2 = Observation { timestamp: t, price: p2 };
    let sel = selected(obs, min, max);
    lemma_selected_push(obs, o1, min, max);
    lemma_selected_push(obs.push(o1), o2, min, max);
    assert(sel.push(o1).push(o2).drop_last() =~= sel.push(o1));
    assert(sel.push(o1).drop_last() =~= sel);
    assert(price_sum(sel.push(o1)) == price_sum(sel) + p1);
    assert(price_sum(sel.push(o1).push(o2)) == price_sum(sel.push(o1)) + p2);
}

/// Removing the observation at index `i` removes exactly its price from the
/// price sum.
proof fn lemma_price_sum_remove(s: Seq<Observation>, i: int)
    requires
        0 <= i < s.len(),
    ensures
        price_sum(s) == price_sum(s.remove(i)) + s[i].price as int,
    decreases s.len(),
{
    if i == s.len() - 1 {
        assert(s.remove(i) =~= s.drop_last());
    } else {
        let t = s.drop_last();
        lemma_price_sum_remove(t, i);
        assert(s.remove(i).drop_last() =~= t.remove(i));
        assert(s.remove(i).last() == s.last());
    }
}

/// Sequences holding the same observations, in whatever order, have the
/// same price sum.
proof fn lemma_price_sum_permuted(a: Seq<Observation>, b: Seq<Observation>)
    requires
        a.to_multiset() == b.to_multiset(),
    ensures
        price_sum(a) == price_sum(b),
    decreases a.len(),
{
    broadcast use vstd::seq_lib::group_to_multiset_ensures;
    broadcast use vstd::multiset::group_multiset_axioms;

    if a.len() == 0 {
        assert(b.to_multiset().len() == 0);
        assert(b.len() == 0);
    } else {
        let x = a.last();
        let a1 = a.drop_last();
        assert(a1.push(x) =~= a);
        assert(a.to_multiset().count(x) > 0);
        assert(b.to_multiset().count(x) > 0);
        assert(b.contains(x));
        let i = choose|i: int| 0 <= i < b.len() && b[i] == x;
        assert(a1.to_multiset() =~= b.remove(i).to_multiset());
        lemma_price_sum_permuted(a1, b.remove(i));
        lemma_price_sum_remove(b, i);
    }
}

/// What removing the observation at index `i` does to the multiset of a
/// window's selection: its own entry leaves when it lay in the window,
/// nothing else changes.
proof fn lemma_selected_remove_multiset(s: Seq<Observation>, i: int, min: int, max: int)
    requires
        0 <= i < s.len(),
    ensures
        selected(s, min, max).to_multiset() == if in_window(s[i], min, max) {
            selected(s.remove(i), min, max).to_multiset().insert(s[i])
        } else {
            selected(s.remove(i), min, max).to_multiset()
        },
{
    broadcast use vstd::seq_lib::group_to_multiset_ensures;
    broadcast use vstd::multiset::group_multiset_axioms;
    broadcast use vstd::seq_lib::lemma_multiset_commutative;

    let pred = |o: Observation| in_window(o, min, max);
    let left = s.subrange(0, i);
    let mid = seq![s[i]];
    let right = s.subrange(i + 1, s.len() as int);
    assert(s =~= (left + mid) + right);
    assert(s.remove(i) =~= left + right);
    Seq::filter_distributes_over_add(left + mid, right, pred);
    Seq::filter_distributes_over_add(left, mid, pred);
    Seq::filter_distributes_over_add(left, right, pred);
    reveal_with_fuel(Seq::filter, 2);
    assert(mid.drop_last() =~= Seq::<Observation>::empty());
    assert(Seq::<Observation>::empty().push(s[i]) =~= mid);
    assert(forall|y: Observation| !Seq::<Observation>::empty().contains(y));
    assert(forall|y: Observation|
        #[trigger] Seq::<Observation>::empty().to_multiset().count(y) == 0);
    assert(Seq::<Observation>::empty().to_multiset() =~= Multiset::<Observation>::empty());
    if pred(s[i]) {
        assert(mid.filter(pred) =~= mid);
        assert(selected(s, min, max).to_multiset() =~= selected(
            s.remove(i),
            min,
            max,
        ).to_multiset().insert(s[i]));
    } else {
        assert(mid.filter(pred) =~= Seq::<Observation>::empty());
        assert(selected(s, min, max).to_multiset() =~= selected(s.remove(i), min, max).to_multiset());
    }
}

/// Sequences holding the same observations, in whatever order, give every
/// window the same multiset of selected observations.
proof fn lemma_selected_permuted(a: Seq<Observation>, b: Seq<Observation>, min: int, max: int)
    requires
        a.to_multiset() == b.to_multiset(),
    ensures
        selected(a, min, max).to_multiset() == selected(b, min, max).to_multiset(),
    decreases a.len(),
{
    broadcast use vstd::seq_lib::group_to_multiset_ensures;
    broadcast use vstd::multiset::group_multiset_axioms;

    if a.len() == 0 {
        assert(b.to_multiset().len() == 0);
        assert(b.len() == 0);
        assert(selected(a, min, max) =~= selected(b, min, max));
    } else {
        let x = a.last();
        let a1 = a.drop_last();
        assert(a1.push(x) =~= a);
        assert(a.to_multiset().count(x) > 0);
        assert(b.to_multiset().count(x) > 0);
        assert(b.contains(x));
        let i = choose|i: int| 0 <= i < b.len() && b[i] == x;
        assert(a1.to_multiset() =~= b.remove(i).to_multiset());
        lemma_selected_permuted(a1, b.remove(i), min, max);
        lemma_selected_push(a1, x, min, max);
        lemma_selected_remove_multiset(b, i, min, max);
    }
}

/// Order independence: ledgers holding the same observations, inserted in
/// any order, answer every query identically.
pub proof fn lemma_query_order_independent(
    a: Seq<Observation>,
    b: Seq<Observation>,
    min: int,
    max: int,
)
    requires
        a.to_multiset() == b.to_multiset(),
    ensures
        spec_query_mean(a, min, max) == spec_query_mean(b, min, max),
{
    broadcast use vstd::seq_lib::group_to_multiset_ensures;

    let sel_a = selected(a, min, max);
    let sel_b = selected(b, min, max);
    lemma_selected_permuted(a, b, min, max);
    assert(sel_a.len() == sel_a.to_multiset().len());
    assert(sel_b.len() == sel_b.to_multiset().len());
    lemma_price_sum_permuted(sel_a, sel_b);
}

/// For `0 <= x <= count * bound` with `count > 0`, the quotient `x / count`
/// stays at or below `bound`.
proof fn lemma_div_bound_upper(x: int, count: int, bound: int)
    requires
        count > 0,
        bound >= 0,
        0 <= x <= count * bound,
    ensures
        0 <= x / count <= bound,
{
    vstd::arithmetic::div_mod::lemma_div_is_ordered(x, count * bound, count);
    vstd::arithmetic::div_mod::lemma_div_multiples_vanish(bound, count);
    vstd::arithmetic::div_mod::lemma_div_pos_is_pos(x, count);
}

} // verus!
