//! Distribution of a container's concrete extent over its children.
//!
//! [`solve_seq`] turns a total available extent plus one [`SizeRules`] per
//! child into one concrete extent per child: minimums are always honoured,
//! and surplus space beyond the minimums is handed out tier by tier in
//! descending stretch priority, proportionally to each child's
//! `ideal - min` headroom within a tier, with integer remainders given one
//! unit at a time to the earliest children. Space left once every child sits
//! at its ideal goes evenly to the children whose stretch class grows beyond
//! the ideal size.
//!
//! The functions here read only the first `n` entries of the rule sequence:
//! callers keep the aggregate rule for the whole row in one extra trailing
//! slot, which the solver must ignore.

use vstd::prelude::*;
use vstd::arithmetic::div_mod::{
    lemma_fundamental_div_mod, lemma_mod_division_less_than_divisor, lemma_multiply_divide_le,
    lemma_multiply_divide_lt, lemma_div_pos_is_pos, lemma_div_nonincreasing, lemma_small_mod,
};
use vstd::arithmetic::mul::{
    lemma_mul_inequality, lemma_mul_strict_inequality, lemma_mul_is_distributive_add,
    lemma_mul_upper_bound,
    lemma_mul_is_distributive_add_other_way, lemma_mul_nonnegative,
    lemma_mul_inequality_converse, lemma_mul_is_commutative,
};
use crate::size_rules::{SizeRules, StretchPolicy};

verus! {

/// The first `n` rules are all well-formed.
pub open spec fn all_valid(rs: Seq<SizeRules>, n: int) -> bool {
    forall|i: int| 0 <= i < n ==> (#[trigger] rs[i]).valid()
}

/// Sum of the minimum extents of the first `n` rules.
pub open spec fn sum_min(rs: Seq<SizeRules>, n: int) -> int
    decreases n,
{
    if n <= 0 {
        0
    } else {
        sum_min(rs, n - 1) + rs[n - 1].min
    }
}

/// Sum of the ideal extents of the first `n` rules.
pub open spec fn sum_ideal(rs: Seq<SizeRules>, n: int) -> int
    decreases n,
{
    if n <= 0 {
        0
    } else {
        sum_ideal(rs, n - 1) + rs[n - 1].ideal
    }
}

/// A child's headroom: how far its ideal extent lies above its minimum.
pub open spec fn weight(r: SizeRules) -> int {
    r.ideal - r.min
}

/// Total headroom of the children of priority tier `t` among the first `n`.
pub open spec fn tier_need(rs: Seq<SizeRules>, n: int, t: int) -> int
    decreases n,
{
    if n <= 0 {
        0
    } else {
        tier_need(rs, n - 1, t) + if rs[n - 1].stretch.rank() == t {
            weight(rs[n - 1])
        } else {
            0
        }
    }
}

/// Total headroom of all tiers of priority above `t`.
pub open spec fn need_above(rs: Seq<SizeRules>, n: int, t: int) -> int
    decreases 4 - t,
{
    if t >= 3 {
        0
    } else {
        tier_need(rs, n, t + 1) + need_above(rs, n, t + 1)
    }
}

/// Surplus still available to tier `t` once every higher tier has been
/// served: the space above the minimums minus what higher tiers took,
/// clamped at zero.
pub open spec fn tier_rem(total: int, rs: Seq<SizeRules>, n: int, t: int) -> int {
    let s = total - sum_min(rs, n) - need_above(rs, n, t);
    if s < 0 {
        0
    } else {
        s
    }
}

/// Tier `t` is fully served: every child in it reaches its ideal extent.
pub open spec fn tier_full(total: int, rs: Seq<SizeRules>, n: int, t: int) -> bool {
    tier_rem(total, rs, n, t) >= tier_need(rs, n, t)
}

/// Child `i`'s proportional share of its tier's surplus, rounded down.
pub open spec fn floor_share(total: int, rs: Seq<SizeRules>, n: int, i: int) -> int {
    let t = rs[i].stretch.rank();
    tier_rem(total, rs, n, t) * weight(rs[i]) / tier_need(rs, n, t)
}

/// Whether child `i`'s proportional share was rounded down, leaving a
/// fractional remainder.
pub open spec fn has_frac(total: int, rs: Seq<SizeRules>, n: int, i: int) -> bool {
    let t = rs[i].stretch.rank();
    (tier_rem(total, rs, n, t) * weight(rs[i])) % tier_need(rs, n, t) != 0
}

/// Sum of the rounded-down shares of tier `t`'s children among the first `k`.
pub open spec fn floor_sum(total: int, rs: Seq<SizeRules>, n: int, t: int, k: int) -> int
    decreases k,
{
    if k <= 0 {
        0
    } else {
        floor_sum(total, rs, n, t, k - 1) + if rs[k - 1].stretch.rank() == t {
            floor_share(total, rs, n, k - 1)
        } else {
            0
        }
    }
}

/// Sum of the fractional remainders of tier `t`'s children among the first
/// `k`, scaled by the tier's total headroom.
pub open spec fn frac_sum(total: int, rs: Seq<SizeRules>, n: int, t: int, k: int) -> int
    decreases k,
{
    if k <= 0 {
        0
    } else {
        frac_sum(total, rs, n, t, k - 1) + if rs[k - 1].stretch.rank() == t {
            let s = tier_rem(total, rs, n, t);
            (s * weight(rs[k - 1])) % tier_need(rs, n, t)
        } else {
            0
        }
    }
}

/// How many of tier `t`'s children among the first `k` have a fractional
/// remainder.
pub open spec fn frac_count(total: int, rs: Seq<SizeRules>, n: int, t: int, k: int) -> int
    decreases k,
{
    if k <= 0 {
        0
    } else {
        frac_count(total, rs, n, t, k - 1) + if rs[k - 1].stretch.rank() == t && has_frac(
            total,
            rs,
            n,
            k - 1,
        ) {
            1int
        } else {
            0
        }
    }
}

/// Units of tier `t`'s surplus not covered by the rounded-down shares; they
/// go one each to the tier's earliest children with fractional remainders.
pub open spec fn tier_leftover(total: int, rs: Seq<SizeRules>, n: int, t: int) -> int {
    tier_rem(total, rs, n, t) - floor_sum(total, rs, n, t, n)
}

/// How far child `i` moves from its minimum toward its ideal extent.
pub open spec fn grow_of(total: int, rs: Seq<SizeRules>, n: int, i: int) -> int {
    let t = rs[i].stretch.rank();
    if tier_full(total, rs, n, t) {
        weight(rs[i])
    } else if has_frac(total, rs, n, i) && frac_count(total, rs, n, t, i) < tier_leftover(
        total,
        rs,
        n,
        t,
    ) {
        floor_share(total, rs, n, i) + 1
    } else {
        floor_share(total, rs, n, i)
    }
}

/// How many of the first `k` children may grow beyond their ideal extent.
pub open spec fn elig_count(rs: Seq<SizeRules>, k: int) -> int
    decreases k,
{
    if k <= 0 {
        0
    } else {
        elig_count(rs, k - 1) + if rs[k - 1].stretch.grows_beyond_ideal() {
            1int
        } else {
            0
        }
    }
}

/// Space left over once every child sits at its ideal extent.
pub open spec fn spare(total: int, rs: Seq<SizeRules>, n: int) -> int {
    total - sum_ideal(rs, n)
}

/// What child `i` receives beyond its ideal extent: an even split of the
/// spare space over the growth-eligible children, with the remainder going
/// one unit each to the earliest of them.
pub open spec fn bonus_of(total: int, rs: Seq<SizeRules>, n: int, i: int) -> int {
    let e = elig_count(rs, n);
    let s = spare(total, rs, n);
    if s > 0 && e > 0 && rs[i].stretch.grows_beyond_ideal() {
        s / e + if elig_count(rs, i) < s % e {
            1int
        } else {
            0
        }
    } else {
        0
    }
}

/// The concrete extent assigned to child `i`: its minimum when space is
/// short of the minimums' sum (the deficit is tolerated, never an error),
/// and otherwise its minimum plus tiered growth plus any beyond-ideal bonus.
pub open spec fn alloc_of(total: int, rs: Seq<SizeRules>, n: int, i: int) -> int {
    if total < sum_min(rs, n) {
        rs[i].min as int
    } else {
        rs[i].min + grow_of(total, rs, n, i) + bonus_of(total, rs, n, i)
    }
}

/// Sum of the assigned extents of the first `k` children.
pub open spec fn sum_alloc(total: int, rs: Seq<SizeRules>, n: int, k: int) -> int
    decreases k,
{
    if k <= 0 {
        0
    } else {
        sum_alloc(total, rs, n, k - 1) + alloc_of(total, rs, n, k - 1)
    }
}

proof fn lemma_sum_bounds(rs: Seq<SizeRules>, n: int)
    requires
        0 <= n,
    ensures
        0 <= sum_min(rs, n) <= n * 0xFFFF_FFFF,
        0 <= sum_ideal(rs, n) <= n * 0xFFFF_FFFF,
    decreases n,
{
    if n > 0 {
        lemma_sum_bounds(rs, n - 1);
    }
}

proof fn lemma_tier_need_bounds(rs: Seq<SizeRules>, n: int, t: int)
    requires
        0 <= n,
        all_valid(rs, n),
    ensures
        0 <= tier_need(rs, n, t) <= n * 0xFFFF_FFFF,
    decreases n,
{
    if n > 0 {
        lemma_tier_need_bounds(rs, n - 1, t);
        assert(rs[n - 1].valid());
    }
}

proof fn lemma_elig_bounds(rs: Seq<SizeRules>, k: int)
    requires
        0 <= k,
    ensures
        0 <= elig_count(rs, k) <= k,
    decreases k,
{
    if k > 0 {
        lemma_elig_bounds(rs, k - 1);
    }
}

proof fn lemma_elig_mono(rs: Seq<SizeRules>, i: int, n: int)
    requires
        0 <= i <= n,
    ensures
        elig_count(rs, i) <= elig_count(rs, n),
    decreases n - i,
{
    if i < n {
        lemma_elig_mono(rs, i + 1, n);
    }
}

proof fn lemma_member_ideal(rs: Seq<SizeRules>, n: int, i: int)
    requires
        0 <= i < n,
    ensures
        rs[i].ideal <= sum_ideal(rs, n),
    decreases n,
{
    lemma_sum_bounds(rs, n - 1);
    if i < n - 1 {
        lemma_member_ideal(rs, n - 1, i);
    }
}

/// The running identity behind proportional distribution: over any prefix of
/// a tier, the tier's surplus times the prefix headroom equals the tier's
/// whole headroom times the rounded shares, plus the fractional remainders.
proof fn lemma_floor_identity(total: int, rs: Seq<SizeRules>, n: int, t: int, k: int)
    requires
        0 <= k <= n,
        all_valid(rs, n),
        tier_need(rs, n, t) > 0,
    ensures
        tier_rem(total, rs, n, t) * tier_need(rs, k, t) == tier_need(rs, n, t) * floor_sum(
            total,
            rs,
            n,
            t,
            k,
        ) + frac_sum(total, rs, n, t, k),
        0 <= frac_sum(total, rs, n, t, k),
        frac_sum(total, rs, n, t, k) <= frac_count(total, rs, n, t, k) * (tier_need(rs, n, t)
            - 1),
        0 <= floor_sum(total, rs, n, t, k),
        0 <= frac_count(total, rs, n, t, k),
    decreases k,
{
    let s = tier_rem(total, rs, n, t);
    let wa = tier_need(rs, n, t);
    if k > 0 {
        lemma_floor_identity(total, rs, n, t, k - 1);
        if rs[k - 1].stretch.rank() == t {
            let w = weight(rs[k - 1]);
            assert(rs[k - 1].valid());
            lemma_mul_nonnegative(s, w);
            lemma_fundamental_div_mod(s * w, wa);
            lemma_mod_division_less_than_divisor(s * w, wa);
            lemma_div_pos_is_pos(s * w, wa);
            lemma_mul_is_distributive_add(s, tier_need(rs, k - 1, t), w);
            lemma_mul_is_distributive_add(
                wa,
                floor_sum(total, rs, n, t, k - 1),
                floor_share(total, rs, n, k - 1),
            );
            lemma_mul_is_distributive_add_other_way(
                wa - 1,
                frac_count(total, rs, n, t, k - 1),
                1,
            );
            lemma_mul_inequality(
                frac_count(total, rs, n, t, k - 1),
                frac_count(total, rs, n, t, k),
                wa - 1,
            );
            lemma_mul_is_commutative(frac_count(total, rs, n, t, k - 1), wa - 1);
            lemma_mul_is_commutative(frac_count(total, rs, n, t, k), wa - 1);
        }
    }
}

/// The units a partially served tier leaves after the rounded shares: never
/// negative, and strictly fewer than the tier's children with fractional
/// remainders (so each unit finds a child to take it).
proof fn lemma_tier_leftover_bounds(total: int, rs: Seq<SizeRules>, n: int, t: int)
    requires
        0 <= n,
        all_valid(rs, n),
        !tier_full(total, rs, n, t),
    ensures
        0 <= tier_leftover(total, rs, n, t) <= tier_rem(total, rs, n, t),
        tier_leftover(total, rs, n, t) >= 1 ==> frac_count(total, rs, n, t, n) > tier_leftover(
            total,
            rs,
            n,
            t,
        ),
{
    let s = tier_rem(total, rs, n, t);
    let wa = tier_need(rs, n, t);
    let fs = floor_sum(total, rs, n, t, n);
    let fc = frac_count(total, rs, n, t, n);
    let l = tier_leftover(total, rs, n, t);
    lemma_floor_identity(total, rs, n, t, n);
    // identity at the full prefix: s * wa == wa * fs + frsum
    let frsum = frac_sum(total, rs, n, t, n);
    lemma_mul_is_commutative(s, wa);
    // fs <= s, from wa * fs <= wa * s
    lemma_mul_is_commutative(wa, fs);
    lemma_mul_is_commutative(wa, s);
    lemma_mul_inequality_converse(fs, s, wa);
    // frsum == wa * (s - fs) == wa * l
    assert(wa * l == wa * s - wa * fs) by {
        lemma_mul_is_distributive_add(wa, s - fs, fs);
    }
    if l >= 1 {
        // if fc <= l then frsum <= l * (wa - 1) == l * wa - l < l * wa, contradiction
        if fc <= l {
            lemma_mul_inequality(fc, l, wa - 1);
            lemma_mul_is_distributive_add(l, wa - 1, 1);
            lemma_mul_is_commutative(l, wa);
            assert(false);
        }
    }
}

/// `floor_sum` never exceeds the tier's surplus.
proof fn lemma_floor_sum_le_rem(total: int, rs: Seq<SizeRules>, n: int, t: int)
    requires
        0 <= n,
        all_valid(rs, n),
        !tier_full(total, rs, n, t),
    ensures
        0 <= floor_sum(total, rs, n, t, n) <= tier_rem(total, rs, n, t),
{
    lemma_tier_leftover_bounds(total, rs, n, t);
    lemma_floor_identity(total, rs, n, t, n);
}

/// Move a child from its minimum toward its ideal by its tier's rounded
/// proportional share, handing out one stored leftover unit if this child's
/// share was rounded down and units remain.
fn grow_for(w: u64, rem: u64, need: u64, l: u64, placed: &mut u64) -> (g: u64)
    requires
        w <= 0xFFFF_FFFF,
        rem <= 0xFFFF_FFFF,
        *old(placed) <= l,
    ensures
        rem >= need ==> g == w && *final(placed) == *old(placed),
        rem < need && (rem * w) % (need as int) != 0 && *old(placed) < l ==> g == (rem * w) / (
        need as int) + 1 && *final(placed) == *old(placed) + 1,
        rem < need && !((rem * w) % (need as int) != 0 && *old(placed) < l) ==> g == (rem * w)
            / (need as int) && *final(placed) == *old(placed),
        g <= w,
{
    if rem >= need {
        w
    } else {
        proof {
            lemma_mul_upper_bound(rem as int, 0xFFFF_FFFF, w as int, 0xFFFF_FFFF);
            lemma_mul_nonnegative(rem as int, w as int);
            lemma_mul_inequality(rem as int, need as int, w as int);
            lemma_multiply_divide_le(rem as int * w as int, need as int, w as int);
            lemma_div_pos_is_pos(rem as int * w as int, need as int);
        }
        let q = (rem * w) / need;
        if (rem * w) % need != 0 && *placed < l {
            proof {
                // a fractional remainder forces w > 0, and then q < w
                if w == 0 {
                    lemma_small_mod(0nat, need as nat);
                }
                lemma_mul_strict_inequality(rem as int, need as int, w as int);
                lemma_multiply_divide_lt(rem as int * w as int, need as int, w as int);
            }
            *placed = *placed + 1;
            q + 1
        } else {
            q
        }
    }
}

/// Distribute `total` over the children whose rules fill the first
/// `out.len()` entries of `rules`, writing each child's concrete extent into
/// the matching entry of `out`.
///
/// `rules` carries one extra trailing slot — the aggregate rule of the whole
/// row, as recorded by the row solver — which is ignored here.
///
/// Every output is pinned exactly by [`alloc_of`]: minimums are always met
/// (see [`lemma_solve_seq_extents`]), deficits are tolerated by falling back
/// to the minimums, and identical inputs always produce identical outputs.
/// [`lemma_solve_seq_sum`] accounts for every distributed unit.
#[verifier::loop_isolation(false)]
#[verifier::rlimit(100)]
pub fn solve_seq(out: &mut Vec<u32>, rules: &Vec<SizeRules>, total: u32)
    requires
        old(out).len() + 1 == rules.len(),
        old(out).len() < 0x1_0000_0000,
        all_valid(rules@, old(out).len() as int),
    ensures
        final(out).len() == old(out).len(),
        forall|i: int|
            0 <= i < old(out).len() ==> #[trigger] final(out)@[i] as int == alloc_of(
                total as int,
                rules@,
                old(out).len() as int,
                i,
            ),
        forall|i: int|
            0 <= i < old(out).len() ==> rules@[i].min <= #[trigger] final(out)@[i],
{
    let n = out.len();
    let ghost rs = rules@;
    let ghost gn = n as int;
    let ghost gt = total as int;

    // one pass to accumulate the sums the distribution depends on
    let mut msum: u64 = 0;
    let mut isum: u64 = 0;
    let mut need0: u64 = 0;
    let mut need1: u64 = 0;
    let mut need2: u64 = 0;
    let mut need3: u64 = 0;
    let mut ecount: u64 = 0;
    let mut i: usize = 0;
    while i < n
        invariant
            i <= n,
            msum == sum_min(rs, i as int),
            isum == sum_ideal(rs, i as int),
            need0 == tier_need(rs, i as int, 0),
            need1 == tier_need(rs, i as int, 1),
            need2 == tier_need(rs, i as int, 2),
            need3 == tier_need(rs, i as int, 3),
            ecount == elig_count(rs, i as int),
        decreases n - i,
    {
        proof {
            assert(rs[i as int].valid());
            lemma_sum_bounds(rs, i as int + 1);
            lemma_tier_need_bounds(rs, i as int + 1, 0);
            lemma_tier_need_bounds(rs, i as int + 1, 1);
            lemma_tier_need_bounds(rs, i as int + 1, 2);
            lemma_tier_need_bounds(rs, i as int + 1, 3);
            lemma_elig_bounds(rs, i as int + 1);
        }
        let r = rules[i];
        let w = r.ideal as u64 - r.min as u64;
        msum = msum + r.min as u64;
        isum = isum + r.ideal as u64;
        match r.stretch {
            StretchPolicy::Fixed => {
                need0 = need0 + w;
            },
            StretchPolicy::LowUtility => {
                need1 = need1 + w;
            },
            StretchPolicy::HighUtility => {
                need2 = need2 + w;
                ecount = ecount + 1;
            },
            StretchPolicy::Filler => {
                need3 = need3 + w;
                ecount = ecount + 1;
            },
        }
        i = i + 1;
    }

    if (total as u64) < msum {
        // space deficit: hold every child at its minimum and tolerate the
        // overflow
        let mut j: usize = 0;
        while j < n
            invariant
                j <= n,
                out.len() == n,
                forall|k: int|
                    0 <= k < j ==> #[trigger] out@[k] as int == alloc_of(gt, rs, gn, k),
            decreases n - j,
        {
            let r = rules[j];
            out.set(j, r.min);
            j = j + 1;
        }
        proof {
            assert forall|i: int| 0 <= i < gn implies rs[i].min <= #[trigger] out@[i] by {
                lemma_solve_seq_extents(gt, rs, gn, i);
            }
        }
        return ;
    }
    // surplus left for each tier, highest priority first

    let surplus: u64 = (total as u64) - msum;
    let rem3: u64 = surplus;
    let rem2: u64 = if rem3 >= need3 {
        rem3 - need3
    } else {
        0
    };
    let rem1: u64 = if rem2 >= need2 {
        rem2 - need2
    } else {
        0
    };
    let rem0: u64 = if rem1 >= need1 {
        rem1 - need1
    } else {
        0
    };
    proof {
        assert(need_above(rs, gn, 3) == 0);
        assert(need_above(rs, gn, 2) == tier_need(rs, gn, 3));
        assert(need_above(rs, gn, 1) == tier_need(rs, gn, 2) + need_above(rs, gn, 2));
        assert(need_above(rs, gn, 0) == tier_need(rs, gn, 1) + need_above(rs, gn, 1));
        assert(rem3 as int == tier_rem(gt, rs, gn, 3));
        assert(rem2 as int == tier_rem(gt, rs, gn, 2));
        assert(rem1 as int == tier_rem(gt, rs, gn, 1));
        assert(rem0 as int == tier_rem(gt, rs, gn, 0));
    }

    // one pass summing the rounded proportional shares of each partial tier
    let mut fs0: u64 = 0;
    let mut fs1: u64 = 0;
    let mut fs2: u64 = 0;
    let mut fs3: u64 = 0;
    let mut i2: usize = 0;
    while i2 < n
        invariant
            i2 <= n,
            rem0 < need0 ==> fs0 == floor_sum(gt, rs, gn, 0, i2 as int),
            rem1 < need1 ==> fs1 == floor_sum(gt, rs, gn, 1, i2 as int),
            rem2 < need2 ==> fs2 == floor_sum(gt, rs, gn, 2, i2 as int),
            rem3 < need3 ==> fs3 == floor_sum(gt, rs, gn, 3, i2 as int),
            rem0 >= need0 ==> fs0 == 0,
            rem1 >= need1 ==> fs1 == 0,
            rem2 >= need2 ==> fs2 == 0,
            rem3 >= need3 ==> fs3 == 0,
            fs0 <= i2 as int * 0xFFFF_FFFF,
            fs1 <= i2 as int * 0xFFFF_FFFF,
            fs2 <= i2 as int * 0xFFFF_FFFF,
            fs3 <= i2 as int * 0xFFFF_FFFF,
        decreases n - i2,
    {
        proof {
            assert(rs[i2 as int].valid());
        }
        let r = rules[i2];
        let w = r.ideal as u64 - r.min as u64;
        match r.stretch {
            StretchPolicy::Fixed => {
                if rem0 < need0 {
                    proof {
                        lemma_mul_upper_bound(rem0 as int, 0xFFFF_FFFF, w as int, 0xFFFF_FFFF);
                        lemma_mul_nonnegative(rem0 as int, w as int);
                        lemma_mul_inequality(rem0 as int, need0 as int, w as int);
                        lemma_multiply_divide_le(rem0 as int * w as int, need0 as int, w as int);
                        lemma_div_pos_is_pos(rem0 as int * w as int, need0 as int);
                    }
                    fs0 = fs0 + (rem0 * w) / need0;
                }
            },
            StretchPolicy::LowUtility => {
                if rem1 < need1 {
                    proof {
                        lemma_mul_upper_bound(rem1 as int, 0xFFFF_FFFF, w as int, 0xFFFF_FFFF);
                        lemma_mul_nonnegative(rem1 as int, w as int);
                        lemma_mul_inequality(rem1 as int, need1 as int, w as int);
                        lemma_multiply_divide_le(rem1 as int * w as int, need1 as int, w as int);
                        lemma_div_pos_is_pos(rem1 as int * w as int, need1 as int);
                    }
                    fs1 = fs1 + (rem1 * w) / need1;
                }
            },
            StretchPolicy::HighUtility => {
                if rem2 < need2 {
                    proof {
                        lemma_mul_upper_bound(rem2 as int, 0xFFFF_FFFF, w as int, 0xFFFF_FFFF);
                        lemma_mul_nonnegative(rem2 as int, w as int);
                        lemma_mul_inequality(rem2 as int, need2 as int, w as int);
                        lemma_multiply_divide_le(rem2 as int * w as int, need2 as int, w as int);
                        lemma_div_pos_is_pos(rem2 as int * w as int, need2 as int);
                    }
                    fs2 = fs2 + (rem2 * w) / need2;
                }
            },
            StretchPolicy::Filler => {
                if rem3 < need3 {
                    proof {
                        lemma_mul_upper_bound(rem3 as int, 0xFFFF_FFFF, w as int, 0xFFFF_FFFF);
                        lemma_mul_nonnegative(rem3 as int, w as int);
                        lemma_mul_inequality(rem3 as int, need3 as int, w as int);
                        lemma_multiply_divide_le(rem3 as int * w as int, need3 as int, w as int);
                        lemma_div_pos_is_pos(rem3 as int * w as int, need3 as int);
                    }
                    fs3 = fs3 + (rem3 * w) / need3;
                }
            },
        }
        i2 = i2 + 1;
    }

    proof {
        if rem0 < need0 {
            lemma_floor_sum_le_rem(gt, rs, gn, 0);
        }
        if rem1 < need1 {
            lemma_floor_sum_le_rem(gt, rs, gn, 1);
        }
        if rem2 < need2 {
            lemma_floor_sum_le_rem(gt, rs, gn, 2);
        }
        if rem3 < need3 {
            lemma_floor_sum_le_rem(gt, rs, gn, 3);
        }
    }
    // units the rounded shares leave unassigned in each partial tier
    let l0: u64 = if rem0 < need0 {
        rem0 - fs0
    } else {
        0
    };
    let l1: u64 = if rem1 < need1 {
        rem1 - fs1
    } else {
        0
    };
    let l2: u64 = if rem2 < need2 {
        rem2 - fs2
    } else {
        0
    };
    let l3: u64 = if rem3 < need3 {
        rem3 - fs3
    } else {
        0
    };

    // space left once every child can sit at its ideal, split evenly over
    // the growth-eligible children
    let sp: u64 = if (total as u64) > isum {
        (total as u64) - isum
    } else {
        0
    };
    let per: u64 = if sp > 0 && ecount > 0 {
        sp / ecount
    } else {
        0
    };
    let prem: u64 = if sp > 0 && ecount > 0 {
        proof {
            lemma_mod_division_less_than_divisor(sp as int, ecount as int);
        }
        sp % ecount
    } else {
        0
    };

    let mut placed0: u64 = 0;
    let mut placed1: u64 = 0;
    let mut placed2: u64 = 0;
    let mut placed3: u64 = 0;
    let mut eseen: u64 = 0;
    let mut k: usize = 0;
    while k < n
        invariant
            k <= n,
            out.len() == n,
            eseen == elig_count(rs, k as int),
            placed0 <= l0,
            placed1 <= l1,
            placed2 <= l2,
            placed3 <= l3,
            rem0 < need0 ==> placed0 as int == (if frac_count(gt, rs, gn, 0, k as int) <= l0 {
                frac_count(gt, rs, gn, 0, k as int)
            } else {
                l0 as int
            }),
            rem1 < need1 ==> placed1 as int == (if frac_count(gt, rs, gn, 1, k as int) <= l1 {
                frac_count(gt, rs, gn, 1, k as int)
            } else {
                l1 as int
            }),
            rem2 < need2 ==> placed2 as int == (if frac_count(gt, rs, gn, 2, k as int) <= l2 {
                frac_count(gt, rs, gn, 2, k as int)
            } else {
                l2 as int
            }),
            rem3 < need3 ==> placed3 as int == (if frac_count(gt, rs, gn, 3, k as int) <= l3 {
                frac_count(gt, rs, gn, 3, k as int)
            } else {
                l3 as int
            }),
            rem0 >= need0 ==> placed0 == 0,
            rem1 >= need1 ==> placed1 == 0,
            rem2 >= need2 ==> placed2 == 0,
            rem3 >= need3 ==> placed3 == 0,
            forall|j: int| 0 <= j < k ==> #[trigger] out@[j] as int == alloc_of(gt, rs, gn, j),
        decreases n - k,
    {
        proof {
            assert(rs[k as int].valid());
            lemma_elig_bounds(rs, k as int);
        }
        let r = rules[k];
        let w = r.ideal as u64 - r.min as u64;
        let g: u64 = match r.stretch {
            StretchPolicy::Fixed => grow_for(w, rem0, need0, l0, &mut placed0),
            StretchPolicy::LowUtility => grow_for(w, rem1, need1, l1, &mut placed1),
            StretchPolicy::HighUtility => grow_for(w, rem2, need2, l2, &mut placed2),
            StretchPolicy::Filler => grow_for(w, rem3, need3, l3, &mut placed3),
        };
        proof {
            assert(g as int == grow_of(gt, rs, gn, k as int));
        }
        let grows = matches!(r.stretch, StretchPolicy::HighUtility | StretchPolicy::Filler);
        let mut b: u64 = 0;
        if grows {
            proof {
                lemma_elig_mono(rs, k as int + 1, gn);
            }
            if sp > 0 {
                proof {
                    lemma_div_nonincreasing(sp as int, ecount as int);
                }
                b = per + (if eseen < prem {
                    1
                } else {
                    0
                });
            }
            eseen = eseen + 1;
        }
        proof {
            assert(b as int == bonus_of(gt, rs, gn, k as int));
        }
        let v: u64 = (r.min as u64) + g + b;
        proof {
            if sp > 0 {
                lemma_member_ideal(rs, gn, k as int);
                if b > 0 {
                    lemma_fundamental_div_mod(sp as int, ecount as int);
                    lemma_mod_division_less_than_divisor(sp as int, ecount as int);
                    lemma_mul_inequality(1, ecount as int, per as int);
                }
            }
            assert(v <= 0xFFFF_FFFF);
        }
        out.set(k, v as u32);
        k = k + 1;
    }
    proof {
        assert forall|i: int| 0 <= i < gn implies rs[i].min <= #[trigger] out@[i] by {
            lemma_solve_seq_extents(gt, rs, gn, i);
        }
    }
}

/// Sum over the first `k` children of how far each moves toward its ideal.
spec fn grow_sum(total: int, rs: Seq<SizeRules>, n: int, k: int) -> int
    decreases k,
{
    if k <= 0 {
        0
    } else {
        grow_sum(total, rs, n, k - 1) + grow_of(total, rs, n, k - 1)
    }
}

/// Sum of the growth of tier `t`'s children among the first `k`.
spec fn tier_grow_sum(total: int, rs: Seq<SizeRules>, n: int, t: int, k: int) -> int
    decreases k,
{
    if k <= 0 {
        0
    } else {
        tier_grow_sum(total, rs, n, t, k - 1) + if rs[k - 1].stretch.rank() == t {
            grow_of(total, rs, n, k - 1)
        } else {
            0
        }
    }
}

/// Sum of the beyond-ideal bonuses of the first `k` children.
spec fn bonus_sum(total: int, rs: Seq<SizeRules>, n: int, k: int) -> int
    decreases k,
{
    if k <= 0 {
        0
    } else {
        bonus_sum(total, rs, n, k - 1) + bonus_of(total, rs, n, k - 1)
    }
}

proof fn lemma_alloc_split(total: int, rs: Seq<SizeRules>, n: int, k: int)
    requires
        0 <= k <= n,
        sum_min(rs, n) <= total,
    ensures
        sum_alloc(total, rs, n, k) == sum_min(rs, k) + grow_sum(total, rs, n, k) + bonus_sum(
            total,
            rs,
            n,
            k,
        ),
    decreases k,
{
    if k > 0 {
        lemma_alloc_split(total, rs, n, k - 1);
    }
}

proof fn lemma_grow_partition(total: int, rs: Seq<SizeRules>, n: int, k: int)
    requires
        0 <= k <= n,
    ensures
        grow_sum(total, rs, n, k) == tier_grow_sum(total, rs, n, 0, k) + tier_grow_sum(
            total,
            rs,
            n,
            1,
            k,
        ) + tier_grow_sum(total, rs, n, 2, k) + tier_grow_sum(total, rs, n, 3, k),
    decreases k,
{
    if k > 0 {
        lemma_grow_partition(total, rs, n, k - 1);
    }
}

proof fn lemma_tier_grow_full(total: int, rs: Seq<SizeRules>, n: int, t: int, k: int)
    requires
        0 <= k <= n,
        all_valid(rs, n),
        tier_full(total, rs, n, t),
    ensures
        tier_grow_sum(total, rs, n, t, k) == tier_need(rs, k, t),
    decreases k,
{
    if k > 0 {
        lemma_tier_grow_full(total, rs, n, t, k - 1);
    }
}

proof fn lemma_tier_grow_partial_prefix(total: int, rs: Seq<SizeRules>, n: int, t: int, k: int)
    requires
        0 <= k <= n,
        all_valid(rs, n),
        !tier_full(total, rs, n, t),
    ensures
        tier_grow_sum(total, rs, n, t, k) == floor_sum(total, rs, n, t, k) + (if frac_count(
            total,
            rs,
            n,
            t,
            k,
        ) <= tier_leftover(total, rs, n, t) {
            frac_count(total, rs, n, t, k)
        } else {
            tier_leftover(total, rs, n, t)
        }),
    decreases k,
{
    lemma_tier_leftover_bounds(total, rs, n, t);
    if k > 0 {
        lemma_tier_grow_partial_prefix(total, rs, n, t, k - 1);
        lemma_floor_identity(total, rs, n, t, k - 1);
        lemma_floor_identity(total, rs, n, t, k);
    }
}

proof fn lemma_tier_grow_total(total: int, rs: Seq<SizeRules>, n: int, t: int)
    requires
        0 <= n,
        all_valid(rs, n),
    ensures
        tier_grow_sum(total, rs, n, t, n) == if tier_full(total, rs, n, t) {
            tier_need(rs, n, t)
        } else {
            tier_rem(total, rs, n, t)
        },
{
    if tier_full(total, rs, n, t) {
        lemma_tier_grow_full(total, rs, n, t, n);
    } else {
        lemma_tier_grow_partial_prefix(total, rs, n, t, n);
        lemma_tier_leftover_bounds(total, rs, n, t);
        lemma_floor_identity(total, rs, n, t, n);
    }
}

proof fn lemma_bonus_total(total: int, rs: Seq<SizeRules>, n: int, k: int)
    requires
        0 <= k <= n,
    ensures
        bonus_sum(total, rs, n, k) == (if spare(total, rs, n) > 0 && elig_count(rs, n) > 0 {
            let e = elig_count(rs, n);
            let s = spare(total, rs, n);
            elig_count(rs, k) * (s / e) + (if elig_count(rs, k) <= s % e {
                elig_count(rs, k)
            } else {
                s % e
            })
        } else {
            0
        }),
    decreases k,
{
    if k > 0 {
        lemma_bonus_total(total, rs, n, k - 1);
        if spare(total, rs, n) > 0 && elig_count(rs, n) > 0 && rs[k
            - 1].stretch.grows_beyond_ideal() {
            let e = elig_count(rs, n);
            let s = spare(total, rs, n);
            lemma_elig_bounds(rs, k - 1);
            lemma_mul_is_distributive_add_other_way(s / e, elig_count(rs, k - 1), 1);
        }
    }
}

proof fn lemma_tier_need_partition(rs: Seq<SizeRules>, n: int)
    requires
        0 <= n,
    ensures
        tier_need(rs, n, 0) + tier_need(rs, n, 1) + tier_need(rs, n, 2) + tier_need(rs, n, 3)
            == sum_ideal(rs, n) - sum_min(rs, n),
    decreases n,
{
    if n > 0 {
        lemma_tier_need_partition(rs, n - 1);
    }
}

/// Every unit of space is accounted for. When space at least covers the
/// minimums, the assigned extents sum to exactly the available total
/// whenever some child may grow beyond its ideal, and to the smaller of the
/// total and the ideals' sum otherwise: surplus that no stretch class may
/// absorb is left to the container, never distributed.
pub proof fn lemma_solve_seq_sum(total: int, rs: Seq<SizeRules>, n: int)
    requires
        0 <= n,
        all_valid(rs, n),
        sum_min(rs, n) <= total,
    ensures
        elig_count(rs, n) > 0 ==> sum_alloc(total, rs, n, n) == total,
        elig_count(rs, n) == 0 && total <= sum_ideal(rs, n) ==> sum_alloc(total, rs, n, n)
            == total,
        elig_count(rs, n) == 0 && total > sum_ideal(rs, n) ==> sum_alloc(total, rs, n, n)
            == sum_ideal(rs, n),
{
    lemma_alloc_split(total, rs, n, n);
    lemma_grow_partition(total, rs, n, n);
    lemma_tier_grow_total(total, rs, n, 0);
    lemma_tier_grow_total(total, rs, n, 1);
    lemma_tier_grow_total(total, rs, n, 2);
    lemma_tier_grow_total(total, rs, n, 3);
    lemma_bonus_total(total, rs, n, n);
    lemma_tier_need_partition(rs, n);
    lemma_tier_need_bounds(rs, n, 0);
    lemma_tier_need_bounds(rs, n, 1);
    lemma_tier_need_bounds(rs, n, 2);
    lemma_tier_need_bounds(rs, n, 3);
    assert(need_above(rs, n, 3) == 0);
    assert(need_above(rs, n, 2) == tier_need(rs, n, 3));
    assert(need_above(rs, n, 1) == tier_need(rs, n, 2) + need_above(rs, n, 2));
    assert(need_above(rs, n, 0) == tier_need(rs, n, 1) + need_above(rs, n, 1));
    if spare(total, rs, n) > 0 && elig_count(rs, n) > 0 {
        let e = elig_count(rs, n);
        let s = spare(total, rs, n);
        lemma_fundamental_div_mod(s, e);
        lemma_mod_division_less_than_divisor(s, e);
    }
}

/// No child is ever assigned less than its minimum extent, and under a space
/// deficit every child is assigned exactly its minimum.
pub proof fn lemma_solve_seq_extents(total: int, rs: Seq<SizeRules>, n: int, i: int)
    requires
        0 <= i < n,
        all_valid(rs, n),
    ensures
        alloc_of(total, rs, n, i) >= rs[i].min,
        total < sum_min(rs, n) ==> alloc_of(total, rs, n, i) == rs[i].min,
{
    assert(rs[i].valid());
    if total >= sum_min(rs, n) {
        let t = rs[i].stretch.rank();
        if !tier_full(total, rs, n, t) {
            lemma_mul_nonnegative(tier_rem(total, rs, n, t), weight(rs[i]));
            lemma_div_pos_is_pos(tier_rem(total, rs, n, t) * weight(rs[i]), tier_need(rs, n, t));
        }
        if spare(total, rs, n) > 0 && elig_count(rs, n) > 0 {
            lemma_div_pos_is_pos(spare(total, rs, n), elig_count(rs, n));
        }
    }
}

} // verus!
