use vstd::prelude::*;

pub mod box_layout;
pub mod grid_layout;

use crate::size_policy::Policy;

verus! {

/// Direction in which a box layout stacks its items (`QBoxLayout::Direction`).
#[derive(Debug, Clone, Copy, PartialEq, Eq, Structural)]
pub enum Direction {
    TopToBottom,
    LeftToRight,
}

/// An entry of a box layout: the laid-out widget (by identifier) and its stretch.
#[derive(Debug, Clone, Copy, PartialEq, Eq, Structural)]
pub struct LayoutItem {
    pub widget: u64,
    pub stretch: u32,
}

/// An entry of a grid layout spanning a rectangular area of cells (`QGridLayout`).
#[derive(Debug, Clone, Copy, PartialEq, Eq, Structural)]
pub struct GridItem {
    pub widget: u64,
    pub row: usize,
    pub column: usize,
    pub row_span: usize,
    pub col_span: usize,
}

/// One item of a one-dimensional distribution: `(hint, min, max, policy, stretch)`.
pub type SpaceItem = (i32, i32, i32, Policy, u32);

/// Maximum number of grow or shrink rounds of the distribution.
pub const DISTRIBUTION_ROUNDS: u32 = 10;

/// `v` limited to `[lo, hi]` (`i32::clamp`).
pub open spec fn clamp(v: int, lo: int, hi: int) -> int {
    if v < lo {
        lo
    } else if v > hi {
        hi
    } else {
        v
    }
}

/// The size an item starts from, following its policy, within its bounds.
pub open spec fn base_size(it: SpaceItem) -> int {
    let (hint, lo, hi, policy, _) = it;
    let wanted = match policy {
        Policy::Ignored => lo as int,
        Policy::Fixed => hint as int,
        Policy::Minimum | Policy::MinimumExpanding => if hint >= lo {
            hint as int
        } else {
            lo as int
        },
        Policy::Maximum => if hint <= hi {
            hint as int
        } else {
            hi as int
        },
        Policy::Preferred | Policy::Expanding => hint as int,
    };
    clamp(wanted, lo as int, hi as int)
}

/// Sum of the stretch factors of `items`.
pub open spec fn stretch_sum(items: Seq<SpaceItem>) -> int
    decreases items.len(),
{
    if items.len() == 0 {
        0
    } else {
        stretch_sum(items.drop_last()) + items.last().4
    }
}

/// Sum of the base sizes of the items without stretch.
pub open spec fn fixed_sum(items: Seq<SpaceItem>) -> int
    decreases items.len(),
{
    if items.len() == 0 {
        0
    } else {
        fixed_sum(items.drop_last()) + if items.last().4 == 0 {
            base_size(items.last())
        } else {
            0
        }
    }
}

/// Sum of a sequence of integers.
pub open spec fn sum(s: Seq<int>) -> int
    decreases s.len(),
{
    if s.len() == 0 {
        0
    } else {
        sum(s.drop_last()) + s.last()
    }
}

/// Sum of the entries of `s` at the positions of items with stretch.
pub open spec fn stretched_sum(items: Seq<SpaceItem>, s: Seq<int>) -> int
    decreases items.len(),
{
    if items.len() == 0 {
        0
    } else {
        stretched_sum(items.drop_last(), s) + if items.last().4 > 0 {
            s[items.len() - 1]
        } else {
            0
        }
    }
}

/// With explicit stretch: fixed items get their base size, stretched items a
/// share of the remaining space proportional to their stretch, within bounds.
pub open spec fn stretch_first_pass(items: Seq<SpaceItem>, space: int) -> Seq<int> {
    Seq::new(
        items.len(),
        |i: int|
            if items[i].4 == 0 {
                base_size(items[i])
            } else {
                clamp(
                    space * items[i].4 / stretch_sum(items),
                    items[i].1 as int,
                    items[i].2 as int,
                )
            },
    )
}

/// Hands out the rounding remainder one unit at a time, in order, to the
/// stretched items that are below their maximum.
pub open spec fn stretch_remainder(items: Seq<SpaceItem>, sizes: Seq<int>, i: nat, rem: int) -> Seq<
    int,
>
    decreases items.len() - i,
{
    if i >= items.len() {
        sizes
    } else if items[i as int].4 > 0 && sizes[i as int] < items[i as int].2 && rem > 0 {
        stretch_remainder(items, sizes.update(i as int, sizes[i as int] + 1), i + 1, rem - 1)
    } else {
        stretch_remainder(items, sizes, i + 1, rem)
    }
}

/// The distribution when at least one item has a stretch factor.
pub open spec fn distribute_stretched(items: Seq<SpaceItem>, available: int) -> Seq<int> {
    let space = if available - fixed_sum(items) > 0 {
        available - fixed_sum(items)
    } else {
        0
    };
    let first = stretch_first_pass(items, space);
    stretch_remainder(items, first, 0, space - stretched_sum(items, first))
}

/// The stretch an item claims when growing without explicit stretch factors.
pub open spec fn effective_stretch(it: SpaceItem) -> int {
    if it.4 > 0 {
        it.4 as int
    } else if it.3.spec_is_expanding() {
        1
    } else {
        0
    }
}

/// Items that may still grow this round.
pub open spec fn grow_eligible(items: Seq<SpaceItem>, sizes: Seq<int>) -> Seq<bool> {
    Seq::new(
        items.len(),
        |i: int| sizes[i] < items[i].2 && (items[i].3.spec_can_grow() || items[i].4 > 0),
    )
}

/// Number of `true` entries.
pub open spec fn count_true(s: Seq<bool>) -> int
    decreases s.len(),
{
    if s.len() == 0 {
        0
    } else {
        count_true(s.drop_last()) + if s.last() {
            1int
        } else {
            0
        }
    }
}

/// Sum of the effective stretch of the eligible items.
pub open spec fn eligible_stretch(items: Seq<SpaceItem>, elig: Seq<bool>) -> int
    decreases items.len(),
{
    if items.len() == 0 {
        0
    } else {
        eligible_stretch(items.drop_last(), elig) + if elig[items.len() - 1] {
            effective_stretch(items.last())
        } else {
            0
        }
    }
}

/// The smallest of three integers.
pub open spec fn min3(a: int, b: int, c: int) -> int {
    let m = if a <= b {
        a
    } else {
        b
    };
    if m <= c {
        m
    } else {
        c
    }
}

/// One growing round from position `i`: each eligible item takes its share of
/// `slack` (proportional to its effective stretch, or an equal share when no
/// eligible item claims stretch), limited by its maximum and by what is left.
/// Returns the sizes and the total handed out.
pub open spec fn grow_pass(
    items: Seq<SpaceItem>,
    elig: Seq<bool>,
    sizes: Seq<int>,
    slack: int,
    total: int,
    count: int,
    i: nat,
    allocated: int,
) -> (Seq<int>, int)
    decreases items.len() - i,
{
    if i >= items.len() {
        (sizes, allocated)
    } else if elig[i as int] {
        let e = effective_stretch(items[i as int]);
        let share = if total > 0 {
            if e > 0 {
                slack * e / total
            } else {
                0
            }
        } else {
            slack / count
        };
        let add = min3(share, items[i as int].2 - sizes[i as int], slack - allocated);
        if add > 0 {
            grow_pass(
                items,
                elig,
                sizes.update(i as int, sizes[i as int] + add),
                slack,
                total,
                count,
                i + 1,
                allocated + add,
            )
        } else {
            grow_pass(items, elig, sizes, slack, total, count, i + 1, allocated)
        }
    } else {
        grow_pass(items, elig, sizes, slack, total, count, i + 1, allocated)
    }
}

/// The fallback of a round that handed out nothing: one unit each, in order,
/// to the eligible items below their maximum while slack remains.
pub open spec fn grow_fallback(
    items: Seq<SpaceItem>,
    elig: Seq<bool>,
    sizes: Seq<int>,
    i: nat,
    slack: int,
) -> Seq<int>
    decreases items.len() - i,
{
    if i >= items.len() {
        sizes
    } else if elig[i as int] && sizes[i as int] < items[i as int].2 && slack > 0 {
        grow_fallback(items, elig, sizes.update(i as int, sizes[i as int] + 1), i + 1, slack - 1)
    } else {
        grow_fallback(items, elig, sizes, i + 1, slack)
    }
}

/// Growing for at most `rounds` rounds while slack remains.
pub open spec fn grow(items: Seq<SpaceItem>, sizes: Seq<int>, slack: int, rounds: nat) -> Seq<int>
    decreases rounds,
{
    if rounds == 0 || slack <= 0 {
        sizes
    } else {
        let elig = grow_eligible(items, sizes);
        let count = count_true(elig);
        if count == 0 {
            sizes
        } else {
            let total = eligible_stretch(items, elig);
            let (next, allocated) = grow_pass(items, elig, sizes, slack, total, count, 0, 0);
            if allocated == 0 {
                grow_fallback(items, elig, next, 0, slack)
            } else {
                grow(items, next, slack - allocated, (rounds - 1) as nat)
            }
        }
    }
}

/// Items that may still shrink this round.
pub open spec fn shrink_eligible(items: Seq<SpaceItem>, sizes: Seq<int>) -> Seq<bool> {
    Seq::new(items.len(), |i: int| sizes[i] > items[i].1 && items[i].3.spec_can_shrink())
}

/// One shrinking round from position `i`: each eligible item gives up to
/// `per_item`, limited by its minimum and by the deficit left.
pub open spec fn shrink_pass(
    items: Seq<SpaceItem>,
    elig: Seq<bool>,
    sizes: Seq<int>,
    deficit: int,
    per_item: int,
    i: nat,
    reduced: int,
) -> (Seq<int>, int)
    decreases items.len() - i,
{
    if i >= items.len() {
        (sizes, reduced)
    } else if elig[i as int] {
        let cut = min3(sizes[i as int] - items[i as int].1, deficit - reduced, per_item);
        if cut > 0 {
            shrink_pass(
                items,
                elig,
                sizes.update(i as int, sizes[i as int] - cut),
                deficit,
                per_item,
                i + 1,
                reduced + cut,
            )
        } else {
            shrink_pass(items, elig, sizes, deficit, per_item, i + 1, reduced)
        }
    } else {
        shrink_pass(items, elig, sizes, deficit, per_item, i + 1, reduced)
    }
}

/// Shrinking for at most `rounds` rounds while a deficit remains.
pub open spec fn shrink(items: Seq<SpaceItem>, sizes: Seq<int>, deficit: int, rounds: nat) -> Seq<
    int,
>
    decreases rounds,
{
    if rounds == 0 || deficit <= 0 {
        sizes
    } else {
        let elig = shrink_eligible(items, sizes);
        let count = count_true(elig);
        if count == 0 {
            sizes
        } else {
            let per_item = if deficit / count >= 1 {
                deficit / count
            } else {
                1
            };
            let (next, reduced) = shrink_pass(items, elig, sizes, deficit, per_item, 0, 0);
            if reduced == 0 {
                next
            } else {
                shrink(items, next, deficit - reduced, (rounds - 1) as nat)
            }
        }
    }
}

/// The base sizes of all items.
pub open spec fn base_sizes(items: Seq<SpaceItem>) -> Seq<int> {
    Seq::new(items.len(), |i: int| base_size(items[i]))
}

/// How `distribute_1d_space` shares `available` among `items`.
pub open spec fn distribution(items: Seq<SpaceItem>, available: int) -> Seq<int> {
    if items.len() == 0 {
        Seq::empty()
    } else if stretch_sum(items) > 0 {
        distribute_stretched(items, available)
    } else {
        let base = base_sizes(items);
        let slack = available - sum(base);
        if slack > 0 {
            grow(items, base, slack, DISTRIBUTION_ROUNDS as nat)
        } else if slack < 0 {
            shrink(items, base, -slack, DISTRIBUTION_ROUNDS as nat)
        } else {
            base
        }
    }
}

/// Every item's bounds are ordered.
pub open spec fn bounds_ordered(items: Seq<SpaceItem>) -> bool {
    forall|i: int| 0 <= i < items.len() ==> #[trigger] items[i].1 <= items[i].2
}

/// The sizes as integers.
pub open spec fn ints(v: Seq<i32>) -> Seq<int> {
    v.map_values(|x: i32| x as int)
}

/// What each size policy starts an item from. The base size is within the
/// item's bounds. An `Ignored` item starts from its minimum. Any other item
/// whose hint lies within its bounds starts from its hint. A `Minimum` or
/// `MinimumExpanding` item never starts below its hint or its minimum (only its
/// maximum can hold it lower), and a `Maximum` item never above its hint or its
/// maximum (only its minimum can hold it higher).
pub proof fn lemma_base_size_follows_policy(it: SpaceItem)
    requires
        it.1 <= it.2,
    ensures
        it.1 <= base_size(it) <= it.2,
        it.3 is Ignored ==> base_size(it) == it.1,
        !(it.3 is Ignored) && it.1 <= it.0 <= it.2 ==> base_size(it) == it.0,
        (it.3 is Minimum || it.3 is MinimumExpanding) ==> (base_size(it) == it.2 || (base_size(it)
            >= it.0 && base_size(it) >= it.1)),
        it.3 is Maximum ==> (base_size(it) == it.1 || (base_size(it) <= it.0 && base_size(it)
            <= it.2)),
{
}

/// The rounding pass changes only items with stretch and keeps the length.
proof fn lemma_remainder_keeps_unstretched(
    items: Seq<SpaceItem>,
    sizes: Seq<int>,
    k: nat,
    rem: int,
    i: int,
)
    requires
        sizes.len() == items.len(),
        0 <= i < items.len(),
        items[i].4 == 0,
    ensures
        stretch_remainder(items, sizes, k, rem).len() == items.len(),
        stretch_remainder(items, sizes, k, rem)[i] == sizes[i],
    decreases items.len() - k,
{
    if k < items.len() {
        if items[k as int].4 > 0 && sizes[k as int] < items[k as int].2 && rem > 0 {
            lemma_remainder_keeps_unstretched(
                items,
                sizes.update(k as int, sizes[k as int] + 1),
                k + 1,
                rem - 1,
                i,
            );
        } else {
            lemma_remainder_keeps_unstretched(items, sizes, k + 1, rem, i);
        }
    }
}

/// When some item has a stretch factor, an item without one gets exactly its
/// base size, whatever the space: so an item whose hint lies within its
/// bounds, and whose policy is not `Ignored`, keeps its hint (a `Minimum` item
/// beside a stretched one keeps its hint, not its minimum), and the stretched
/// items share what is left.
pub proof fn lemma_unstretched_item_keeps_base_size(items: Seq<SpaceItem>, available: int, i: int)
    requires
        stretch_sum(items) > 0,
        0 <= i < items.len(),
        items[i].4 == 0,
        items[i].1 <= items[i].2,
    ensures
        distribution(items, available).len() == items.len(),
        distribution(items, available)[i] == base_size(items[i]),
        !(items[i].3 is Ignored) && items[i].1 <= items[i].0 <= items[i].2 ==> distribution(
            items,
            available,
        )[i] == items[i].0,
{
    let space = if available - fixed_sum(items) > 0 {
        available - fixed_sum(items)
    } else {
        0
    };
    let first = stretch_first_pass(items, space);
    lemma_remainder_keeps_unstretched(items, first, 0, space - stretched_sum(items, first), i);
    lemma_base_size_follows_policy(items[i]);
}

/// A growing round only raises sizes, and only those of eligible items.
proof fn lemma_grow_pass_raises(
    items: Seq<SpaceItem>,
    elig: Seq<bool>,
    sizes: Seq<int>,
    slack: int,
    total: int,
    count: int,
    i: nat,
    allocated: int,
    j: int,
)
    requires
        sizes.len() == items.len(),
        elig.len() == items.len(),
        0 <= j < items.len(),
    ensures
        grow_pass(items, elig, sizes, slack, total, count, i, allocated).0.len() == items.len(),
        grow_pass(items, elig, sizes, slack, total, count, i, allocated).0[j] >= sizes[j],
        !elig[j] ==> grow_pass(items, elig, sizes, slack, total, count, i, allocated).0[j]
            == sizes[j],
    decreases items.len() - i,
{
    if i < items.len() && elig[i as int] {
        let e = effective_stretch(items[i as int]);
        let share = if total > 0 {
            if e > 0 {
                slack * e / total
            } else {
                0
            }
        } else {
            slack / count
        };
        let add = min3(share, items[i as int].2 - sizes[i as int], slack - allocated);
        if add > 0 {
            lemma_grow_pass_raises(
                items,
                elig,
                sizes.update(i as int, sizes[i as int] + add),
                slack,
                total,
                count,
                i + 1,
                allocated + add,
                j,
            );
        } else {
            lemma_grow_pass_raises(items, elig, sizes, slack, total, count, i + 1, allocated, j);
        }
    } else if i < items.len() {
        lemma_grow_pass_raises(items, elig, sizes, slack, total, count, i + 1, allocated, j);
    }
}

/// The one-unit fallback only raises sizes, and only those of eligible items.
proof fn lemma_grow_fallback_raises(
    items: Seq<SpaceItem>,
    elig: Seq<bool>,
    sizes: Seq<int>,
    i: nat,
    slack: int,
    j: int,
)
    requires
        sizes.len() == items.len(),
        elig.len() == items.len(),
        0 <= j < items.len(),
    ensures
        grow_fallback(items, elig, sizes, i, slack).len() == items.len(),
        grow_fallback(items, elig, sizes, i, slack)[j] >= sizes[j],
        !elig[j] ==> grow_fallback(items, elig, sizes, i, slack)[j] == sizes[j],
    decreases items.len() - i,
{
    if i < items.len() {
        if elig[i as int] && sizes[i as int] < items[i as int].2 && slack > 0 {
            lemma_grow_fallback_raises(
                items,
                elig,
                sizes.update(i as int, sizes[i as int] + 1),
                i + 1,
                slack - 1,
                j,
            );
        } else {
            lemma_grow_fallback_raises(items, elig, sizes, i + 1, slack, j);
        }
    }
}

/// Growing only raises sizes, and leaves alone an item without stretch whose
/// policy does not let it grow.
proof fn lemma_grow_raises(items: Seq<SpaceItem>, sizes: Seq<int>, slack: int, rounds: nat, j: int)
    requires
        sizes.len() == items.len(),
        0 <= j < items.len(),
    ensures
        grow(items, sizes, slack, rounds).len() == items.len(),
        grow(items, sizes, slack, rounds)[j] >= sizes[j],
        !items[j].3.spec_can_grow() && items[j].4 == 0 ==> grow(items, sizes, slack, rounds)[j]
            == sizes[j],
    decreases rounds,
{
    if !(rounds == 0 || slack <= 0) {
        let elig = grow_eligible(items, sizes);
        let count = count_true(elig);
        if count != 0 {
            let total = eligible_stretch(items, elig);
            let (next, allocated) = grow_pass(items, elig, sizes, slack, total, count, 0, 0);
            lemma_grow_pass_raises(items, elig, sizes, slack, total, count, 0, 0, j);
            if allocated == 0 {
                lemma_grow_fallback_raises(items, elig, next, 0, slack, j);
            } else {
                lemma_grow_raises(items, next, slack - allocated, (rounds - 1) as nat, j);
            }
        }
    }
}

/// A shrinking round only lowers sizes, and only those of eligible items.
proof fn lemma_shrink_pass_lowers(
    items: Seq<SpaceItem>,
    elig: Seq<bool>,
    sizes: Seq<int>,
    deficit: int,
    per_item: int,
    i: nat,
    reduced: int,
    j: int,
)
    requires
        sizes.len() == items.len(),
        elig.len() == items.len(),
        0 <= j < items.len(),
    ensures
        shrink_pass(items, elig, sizes, deficit, per_item, i, reduced).0.len() == items.len(),
        shrink_pass(items, elig, sizes, deficit, per_item, i, reduced).0[j] <= sizes[j],
        !elig[j] ==> shrink_pass(items, elig, sizes, deficit, per_item, i, reduced).0[j]
            == sizes[j],
    decreases items.len() - i,
{
    if i < items.len() && elig[i as int] {
        let cut = min3(sizes[i as int] - items[i as int].1, deficit - reduced, per_item);
        if cut > 0 {
            lemma_shrink_pass_lowers(
                items,
                elig,
                sizes.update(i as int, sizes[i as int] - cut),
                deficit,
                per_item,
                i + 1,
                reduced + cut,
                j,
            );
        } else {
            lemma_shrink_pass_lowers(items, elig, sizes, deficit, per_item, i + 1, reduced, j);
        }
    } else if i < items.len() {
        lemma_shrink_pass_lowers(items, elig, sizes, deficit, per_item, i + 1, reduced, j);
    }
}

/// Shrinking only lowers sizes, and leaves alone an item whose policy does
/// not let it shrink.
proof fn lemma_shrink_lowers(items: Seq<SpaceItem>, sizes: Seq<int>, deficit: int, rounds: nat, j: int)
    requires
        sizes.len() == items.len(),
        0 <= j < items.len(),
    ensures
        shrink(items, sizes, deficit, rounds).len() == items.len(),
        shrink(items, sizes, deficit, rounds)[j] <= sizes[j],
        !items[j].3.spec_can_shrink() ==> shrink(items, sizes, deficit, rounds)[j] == sizes[j],
    decreases rounds,
{
    if !(rounds == 0 || deficit <= 0) {
        let elig = shrink_eligible(items, sizes);
        let count = count_true(elig);
        if count != 0 {
            let per_item = if deficit / count >= 1 {
                deficit / count
            } else {
                1
            };
            let (next, reduced) = shrink_pass(items, elig, sizes, deficit, per_item, 0, 0);
            lemma_shrink_pass_lowers(items, elig, sizes, deficit, per_item, 0, 0, j);
            if reduced != 0 {
                lemma_shrink_lowers(items, next, deficit - reduced, (rounds - 1) as nat, j);
            }
        }
    }
}

/// Without stretch factors, a layout with room to spare only grows items
/// from their base sizes and one short of room only shrinks them. An item
/// whose policy does not let it grow (`Fixed`, `Maximum`) keeps its base size
/// when there is room to spare; one whose policy does not let it shrink
/// (`Fixed`, `Minimum`, `MinimumExpanding`) keeps it when room is short.
pub proof fn lemma_unstretched_layout_moves_one_way(items: Seq<SpaceItem>, available: int, i: int)
    requires
        stretch_sum(items) == 0,
        0 <= i < items.len(),
    ensures
        distribution(items, available).len() == items.len(),
        available >= sum(base_sizes(items)) ==> distribution(items, available)[i] >= base_size(
            items[i],
        ),
        available >= sum(base_sizes(items)) && !items[i].3.spec_can_grow() ==> distribution(
            items,
            available,
        )[i] == base_size(items[i]),
        available <= sum(base_sizes(items)) ==> distribution(items, available)[i] <= base_size(
            items[i],
        ),
        available <= sum(base_sizes(items)) && !items[i].3.spec_can_shrink() ==> distribution(
            items,
            available,
        )[i] == base_size(items[i]),
{
    let base = base_sizes(items);
    let slack = available - sum(base);
    lemma_zero_stretch(items, i);
    lemma_grow_raises(items, base, slack, DISTRIBUTION_ROUNDS as nat, i);
    lemma_shrink_lowers(items, base, -slack, DISTRIBUTION_ROUNDS as nat, i);
}

/// The base size of one item.
fn item_base_size(it: SpaceItem) -> (r: i32)
    requires
        it.1 <= it.2,
    ensures
        r == base_size(it),
        it.1 <= r <= it.2,
{
    let (hint, lo, hi, policy, _) = it;
    let wanted = match policy {
        Policy::Ignored => lo,
        Policy::Fixed => hint,
        Policy::Minimum | Policy::MinimumExpanding => if hint >= lo {
            hint
        } else {
            lo
        },
        Policy::Maximum => if hint <= hi {
            hint
        } else {
            hi
        },
        Policy::Preferred | Policy::Expanding => hint,
    };
    if wanted < lo {
        lo
    } else if wanted > hi {
        hi
    } else {
        wanted
    }
}

/// A prefix extended by one element drops back to the prefix.
proof fn lemma_prefix_step<A>(s: Seq<A>, i: int)
    requires
        0 <= i < s.len(),
    ensures
        s.subrange(0, i + 1).drop_last() == s.subrange(0, i),
        s.subrange(0, i + 1).last() == s[i],
{
    assert(s.subrange(0, i + 1).drop_last() =~= s.subrange(0, i));
}

/// Sums over a prefix only look at the prefix.
proof fn lemma_stretched_sum_prefix(items: Seq<SpaceItem>, s: Seq<int>, t: Seq<int>, n: int)
    requires
        0 <= n <= items.len(),
        forall|j: int| 0 <= j < n ==> s[j] == t[j],
    ensures
        stretched_sum(items.subrange(0, n), s) == stretched_sum(items.subrange(0, n), t),
    decreases n,
{
    if n > 0 {
        lemma_prefix_step(items, n - 1);
        lemma_stretched_sum_prefix(items, s, t, n - 1);
    }
}

/// A sum of bounded terms is bounded by the count times the bounds.
proof fn lemma_sum_bound(s: Seq<int>, lo: int, hi: int)
    requires
        forall|j: int| 0 <= j < s.len() ==> lo <= #[trigger] s[j] <= hi,
    ensures
        s.len() * lo <= sum(s) <= s.len() * hi,
    decreases s.len(),
{
    if s.len() > 0 {
        assert forall|j: int| 0 <= j < s.drop_last().len() implies lo <= #[trigger] s.drop_last()[j]
            <= hi by {
            assert(s.drop_last()[j] == s[j]);
        }
        lemma_sum_bound(s.drop_last(), lo, hi);
        assert(s.last() == s[s.len() - 1]);
        assert((s.len() - 1) * lo + lo == s.len() * lo) by (nonlinear_arith);
        assert((s.len() - 1) * hi + hi == s.len() * hi) by (nonlinear_arith);
    }
}

/// Distributes one-dimensional space among items according to their hints,
/// bounds, size policies and stretch factors (`QLayout` item distribution).
///
/// Items are `(hint, min, max, policy, stretch)`. With any stretch factor, the
/// items without stretch keep their base size and the rest of the space is
/// shared by stretch; otherwise the base sizes grow or shrink in rounds toward
/// `available_span`. Every size stays within its item's bounds.
pub fn distribute_1d_space(items: &[SpaceItem], available_span: i32) -> (r: Vec<i32>)
    requires
        bounds_ordered(items@),
        stretch_sum(items@) <= u32::MAX,
    ensures
        ints(r@) == distribution(items@, available_span as int),
        r@.len() == items@.len(),
        forall|i: int| 0 <= i < r@.len() ==> items@[i].1 <= #[trigger] r@[i] <= items@[i].2,
{
    let count = items.len();
    if count == 0 {
        let r: Vec<i32> = Vec::new();
        assert(ints(r@) =~= Seq::<int>::empty());
        return r;
    }
    let mut total: u32 = 0;
    let mut i: usize = 0;
    while i < count
        invariant
            0 <= i <= count == items@.len(),
            total == stretch_sum(items@.subrange(0, i as int)),
            stretch_sum(items@) <= u32::MAX,
        decreases count - i,
    {
        proof {
            lemma_prefix_step(items@, i as int);
            lemma_stretch_sum_prefix_le(items@, i as int + 1);
        }
        total = total + items[i].4;
        i = i + 1;
    }
    assert(items@.subrange(0, count as int) =~= items@);
    if total > 0 {
        distribute_with_stretch(items, available_span, total)
    } else {
        distribute_without_stretch(items, available_span)
    }
}

/// A prefix never has more stretch than the whole.
proof fn lemma_stretch_sum_prefix_le(items: Seq<SpaceItem>, n: int)
    requires
        0 <= n <= items.len(),
    ensures
        0 <= stretch_sum(items.subrange(0, n)) <= stretch_sum(items),
    decreases items.len() - n,
{
    if n < items.len() {
        lemma_prefix_step(items, n);
        lemma_stretch_sum_prefix_le(items, n + 1);
        lemma_stretch_sum_nonneg(items.subrange(0, n));
    } else {
        assert(items.subrange(0, n) =~= items);
        lemma_stretch_sum_nonneg(items);
    }
}

/// Stretch sums are never negative.
proof fn lemma_stretch_sum_nonneg(items: Seq<SpaceItem>)
    ensures
        stretch_sum(items) >= 0,
    decreases items.len(),
{
    if items.len() > 0 {
        lemma_stretch_sum_nonneg(items.drop_last());
    }
}

/// The distribution when some item has a stretch factor.
fn distribute_with_stretch(items: &[SpaceItem], available_span: i32, total: u32) -> (r: Vec<i32>)
    requires
        bounds_ordered(items@),
        items@.len() > 0,
        total == stretch_sum(items@),
        total > 0,
    ensures
        ints(r@) == distribute_stretched(items@, available_span as int),
        r@.len() == items@.len(),
        forall|i: int| 0 <= i < r@.len() ==> items@[i].1 <= #[trigger] r@[i] <= items@[i].2,
{
    let count = items.len();
    // Sum of the base sizes of the items without stretch.
    let mut fixed: i128 = 0;
    let mut i: usize = 0;
    while i < count
        invariant
            0 <= i <= count == items@.len(),
            bounds_ordered(items@),
            fixed == fixed_sum(items@.subrange(0, i as int)),
            -(i as int) * 0x8000_0000 <= fixed <= (i as int) * 0x8000_0000,
        decreases count - i,
    {
        proof {
            lemma_prefix_step(items@, i as int);
        }
        assert(items@[i as int].1 <= items@[i as int].2);
        if items[i].4 == 0 {
            let b = item_base_size(items[i]);
            fixed = fixed + b as i128;
        }
        i = i + 1;
        assert((i - 1) as int * 0x8000_0000 + 0x8000_0000 == (i as int) * 0x8000_0000)
            by (nonlinear_arith);
    }
    assert(items@.subrange(0, count as int) =~= items@);
    let diff: i128 = available_span as i128 - fixed;
    let space: u128 = if diff > 0 {
        diff as u128
    } else {
        0
    };
    assert(space < 0x1_0000_0000_0000_0000_0000_0000) by (nonlinear_arith)
        requires
            space <= 0x8000_0000 + count * 0x8000_0000,
            count <= usize::MAX,
    ;
    let ghost first = stretch_first_pass(items@, space as int);
    // First pass: base sizes for fixed items, stretch shares for the others.
    let mut sizes: Vec<i32> = Vec::new();
    let mut alloc: i128 = 0;
    let mut i: usize = 0;
    while i < count
        invariant
            0 <= i <= count == items@.len(),
            bounds_ordered(items@),
            total == stretch_sum(items@),
            total > 0,
            space < 0x1_0000_0000_0000_0000_0000_0000,
            first == stretch_first_pass(items@, space as int),
            sizes@.len() == i,
            forall|j: int| 0 <= j < i ==> #[trigger] sizes@[j] as int == first[j],
            forall|j: int| 0 <= j < i ==> items@[j].1 <= #[trigger] sizes@[j] <= items@[j].2,
            alloc == stretched_sum(items@.subrange(0, i as int), first),
            -(i as int) * 0x8000_0000 <= alloc <= (i as int) * 0x8000_0000,
        decreases count - i,
    {
        proof {
            lemma_prefix_step(items@, i as int);
        }
        let it = items[i];
        assert(it.1 <= it.2);
        let v: i32 = if it.4 == 0 {
            item_base_size(it)
        } else {
            assert(space * (it.4 as int) < 0x1_0000_0000_0000_0000_0000_0000 * 0x1_0000_0000)
                by (nonlinear_arith)
                requires
                    space < 0x1_0000_0000_0000_0000_0000_0000,
                    it.4 <= u32::MAX,
            ;
            let share: u128 = (space * it.4 as u128) / total as u128;
            if it.2 < 0 || share > it.2 as u128 {
                it.2
            } else {
                let sv = share as i32;
                if sv < it.1 {
                    it.1
                } else {
                    sv
                }
            }
        };
        proof {
            if it.4 > 0 {
                let q = space as int * it.4 as int / total as int;
                assert(q >= 0) by (nonlinear_arith)
                    requires
                        space >= 0,
                        it.4 >= 0,
                        total > 0,
                        q == space as int * it.4 as int / total as int,
                ;
                assert(v == clamp(q, it.1 as int, it.2 as int));
            }
            assert(v == first[i as int]);
        }
        if it.4 > 0 {
            alloc = alloc + v as i128;
        }
        sizes.push(v);
        i = i + 1;
        assert((i - 1) as int * 0x8000_0000 + 0x8000_0000 == (i as int) * 0x8000_0000)
            by (nonlinear_arith);
    }
    assert(items@.subrange(0, count as int) =~= items@);
    let ghost sizes0 = ints(sizes@);
    assert(sizes0 =~= first);
    // Hand out the rounding remainder, one unit at a time.
    let mut rem: i128 = space as i128 - alloc;
    let mut i: usize = 0;
    while i < count
        invariant
            0 <= i <= count == items@.len(),
            bounds_ordered(items@),
            sizes@.len() == count,
            forall|j: int| 0 <= j < count ==> items@[j].1 <= #[trigger] sizes@[j] <= items@[j].2,
            stretch_remainder(items@, ints(sizes@), i as nat, rem as int) == stretch_remainder(
                items@,
                first,
                0,
                space - stretched_sum(items@, first),
            ),
        decreases count - i,
    {
        let it = items[i];
        if it.4 > 0 && sizes[i] < it.2 && rem > 0 {
            let ghost before = ints(sizes@);
            let v = sizes[i] + 1;
            sizes.set(i, v);
            rem = rem - 1;
            assert(ints(sizes@) =~= before.update(i as int, before[i as int] + 1));
        }
        i = i + 1;
    }
    proof {
        let fin = ints(sizes@);
        assert(stretch_remainder(items@, fin, count as nat, rem as int) == fin);
        let avail = available_span as int;
        let fs = fixed_sum(items@);
        assert(space as int == if avail - fs > 0 {
            avail - fs
        } else {
            0
        });
    }
    sizes
}

/// Without stretch in the sum, no item has stretch.
proof fn lemma_zero_stretch(items: Seq<SpaceItem>, i: int)
    requires
        stretch_sum(items) == 0,
        0 <= i < items.len(),
    ensures
        items[i].4 == 0,
    decreases items.len(),
{
    lemma_stretch_sum_nonneg(items.drop_last());
    if i < items.len() - 1 {
        assert(items.drop_last()[i] == items[i]);
        lemma_zero_stretch(items.drop_last(), i);
    }
}

/// Sizes inside their items' bounds.
pub open spec fn within_bounds(items: Seq<SpaceItem>, sizes: Seq<i32>) -> bool {
    &&& sizes.len() == items.len()
    &&& forall|j: int| 0 <= j < items.len() ==> items[j].1 <= #[trigger] sizes[j] <= items[j].2
}

/// The eligibility flags of a growing round with their count and stretch total.
fn grow_flags(items: &[SpaceItem], sizes: &Vec<i32>) -> (r: (Vec<bool>, u64, i128))
    requires
        within_bounds(items@, sizes@),
        stretch_sum(items@) == 0,
    ensures
        r.0@ == grow_eligible(items@, ints(sizes@)),
        r.1 as int == count_true(r.0@),
        r.2 as int == eligible_stretch(items@, r.0@),
        0 <= r.2 <= r.1 <= items@.len(),
{
    let ghost target = grow_eligible(items@, ints(sizes@));
    let mut elig: Vec<bool> = Vec::new();
    let mut count: u64 = 0;
    let mut total: i128 = 0;
    let mut i: usize = 0;
    while i < items.len()
        invariant
            0 <= i <= items@.len(),
            within_bounds(items@, sizes@),
            stretch_sum(items@) == 0,
            target == grow_eligible(items@, ints(sizes@)),
            elig@ == target.subrange(0, i as int),
            count as int == count_true(elig@),
            total as int == eligible_stretch(items@.subrange(0, i as int), target),
            0 <= total <= count <= i,
        decreases items@.len() - i,
    {
        proof {
            lemma_prefix_step(items@, i as int);
            lemma_zero_stretch(items@, i as int);
        }
        let it = items[i];
        let e = sizes[i] < it.2 && (it.3.can_grow() || it.4 > 0);
        let ghost before = elig@;
        elig.push(e);
        proof {
            assert(elig@.drop_last() =~= before);
            assert(elig@ =~= target.subrange(0, i as int + 1));
        }
        if e {
            count = count + 1;
            if it.3.is_expanding() {
                total = total + 1;
            }
        }
        i = i + 1;
    }
    assert(items@.subrange(0, i as int) =~= items@);
    assert(target.subrange(0, i as int) =~= target);
    (elig, count, total)
}

/// One growing round, as [`grow_pass`] describes it.
fn grow_round(
    items: &[SpaceItem],
    sizes: &mut Vec<i32>,
    elig: &Vec<bool>,
    slack: i128,
    total: i128,
    count: u64,
) -> (allocated: i128)
    requires
        within_bounds(items@, old(sizes)@),
        elig@.len() == items@.len(),
        stretch_sum(items@) == 0,
        0 < slack < 0x1_0000_0000_0000_0000_0000_0000_0000,
        0 <= total <= count,
        count > 0,
    ensures
        within_bounds(items@, final(sizes)@),
        (ints(final(sizes)@), allocated as int) == grow_pass(
            items@,
            elig@,
            ints(old(sizes)@),
            slack as int,
            total as int,
            count as int,
            0,
            0,
        ),
        0 <= allocated <= slack,
{
    let ghost start = ints(sizes@);
    let mut allocated: i128 = 0;
    let mut i: usize = 0;
    while i < items.len()
        invariant
            0 <= i <= items@.len(),
            within_bounds(items@, sizes@),
            elig@.len() == items@.len(),
            stretch_sum(items@) == 0,
            0 < slack < 0x1_0000_0000_0000_0000_0000_0000_0000,
            0 <= total <= count,
            count > 0,
            0 <= allocated <= slack,
            grow_pass(
                items@,
                elig@,
                ints(sizes@),
                slack as int,
                total as int,
                count as int,
                i as nat,
                allocated as int,
            ) == grow_pass(
                items@,
                elig@,
                start,
                slack as int,
                total as int,
                count as int,
                0,
                0,
            ),
        decreases items@.len() - i,
    {
        if elig[i] {
            let it = items[i];
            proof {
                lemma_zero_stretch(items@, i as int);
            }
            let e: i128 = if it.4 > 0 {
                it.4 as i128
            } else if it.3.is_expanding() {
                1
            } else {
                0
            };
            let share: i128 = if total > 0 {
                if e > 0 {
                    slack * e / total
                } else {
                    0
                }
            } else {
                slack / count as i128
            };
            let room: i128 = it.2 as i128 - sizes[i] as i128;
            let left: i128 = slack - allocated;
            let m = if share <= room {
                share
            } else {
                room
            };
            let add = if m <= left {
                m
            } else {
                left
            };
            if add > 0 {
                let ghost before = ints(sizes@);
                let v = (sizes[i] as i128 + add) as i32;
                sizes.set(i, v);
                allocated = allocated + add;
                assert(ints(sizes@) =~= before.update(i as int, before[i as int] + add));
            }
        }
        i = i + 1;
    }
    allocated
}

/// The fallback of a round that handed out nothing, as [`grow_fallback`] describes it.
fn grow_fallback_round(items: &[SpaceItem], sizes: &mut Vec<i32>, elig: &Vec<bool>, slack: i128)
    requires
        within_bounds(items@, old(sizes)@),
        elig@.len() == items@.len(),
    ensures
        within_bounds(items@, final(sizes)@),
        ints(final(sizes)@) == grow_fallback(items@, elig@, ints(old(sizes)@), 0, slack as int),
{
    let ghost start = ints(sizes@);
    let mut left = slack;
    let mut i: usize = 0;
    while i < items.len()
        invariant
            0 <= i <= items@.len(),
            within_bounds(items@, sizes@),
            elig@.len() == items@.len(),
            left <= slack,
            grow_fallback(items@, elig@, ints(sizes@), i as nat, left as int) == grow_fallback(
                items@,
                elig@,
                start,
                0,
                slack as int,
            ),
        decreases items@.len() - i,
    {
        if elig[i] && sizes[i] < items[i].2 && left > 0 {
            let ghost before = ints(sizes@);
            let v = sizes[i] + 1;
            sizes.set(i, v);
            left = left - 1;
            assert(ints(sizes@) =~= before.update(i as int, before[i as int] + 1));
        }
        i = i + 1;
    }
}

/// Grows the sizes in rounds, as [`grow`] describes it.
fn grow_sizes(items: &[SpaceItem], sizes: &mut Vec<i32>, initial: i128)
    requires
        within_bounds(items@, old(sizes)@),
        stretch_sum(items@) == 0,
        0 < initial < 0x1_0000_0000_0000_0000_0000_0000_0000,
    ensures
        within_bounds(items@, final(sizes)@),
        ints(final(sizes)@) == grow(items@, ints(old(sizes)@), initial as int, DISTRIBUTION_ROUNDS as nat),
{
    let mut slack = initial;
    let mut round: u32 = 0;
    loop
        invariant_except_break
            within_bounds(items@, sizes@),
            stretch_sum(items@) == 0,
            0 <= slack < 0x1_0000_0000_0000_0000_0000_0000_0000,
            round <= DISTRIBUTION_ROUNDS,
            grow(items@, ints(sizes@), slack as int, (DISTRIBUTION_ROUNDS - round) as nat) == grow(
                items@,
                ints(old(sizes)@),
                initial as int,
                DISTRIBUTION_ROUNDS as nat,
            ),
        ensures
            within_bounds(items@, sizes@),
            ints(sizes@) == grow(items@, ints(old(sizes)@), initial as int, DISTRIBUTION_ROUNDS as nat),
        decreases DISTRIBUTION_ROUNDS - round,
    {
        if round >= DISTRIBUTION_ROUNDS || slack <= 0 {
            break;
        }
        let (elig, count, total) = grow_flags(items, sizes);
        if count == 0 {
            break;
        }
        let ghost before = ints(sizes@);
        let allocated = grow_round(items, sizes, &elig, slack, total, count);
        if allocated == 0 {
            grow_fallback_round(items, sizes, &elig, slack);
            break;
        }
        slack = slack - allocated;
        round = round + 1;
    }
}

/// The eligibility flags of a shrinking round with their count.
fn shrink_flags(items: &[SpaceItem], sizes: &Vec<i32>) -> (r: (Vec<bool>, u64))
    requires
        within_bounds(items@, sizes@),
    ensures
        r.0@ == shrink_eligible(items@, ints(sizes@)),
        r.1 as int == count_true(r.0@),
        r.1 <= items@.len(),
{
    let ghost target = shrink_eligible(items@, ints(sizes@));
    let mut elig: Vec<bool> = Vec::new();
    let mut count: u64 = 0;
    let mut i: usize = 0;
    while i < items.len()
        invariant
            0 <= i <= items@.len(),
            within_bounds(items@, sizes@),
            target == shrink_eligible(items@, ints(sizes@)),
            elig@ == target.subrange(0, i as int),
            count as int == count_true(elig@),
            count <= i,
        decreases items@.len() - i,
    {
        let it = items[i];
        let e = sizes[i] > it.1 && it.3.can_shrink();
        let ghost before = elig@;
        elig.push(e);
        proof {
            assert(elig@.drop_last() =~= before);
            assert(elig@ =~= target.subrange(0, i as int + 1));
        }
        if e {
            count = count + 1;
        }
        i = i + 1;
    }
    assert(target.subrange(0, i as int) =~= target);
    (elig, count)
}

/// One shrinking round, as [`shrink_pass`] describes it.
fn shrink_round(
    items: &[SpaceItem],
    sizes: &mut Vec<i32>,
    elig: &Vec<bool>,
    deficit: i128,
    per_item: i128,
) -> (reduced: i128)
    requires
        within_bounds(items@, old(sizes)@),
        elig@.len() == items@.len(),
        0 < deficit,
        per_item >= 1,
    ensures
        within_bounds(items@, final(sizes)@),
        (ints(final(sizes)@), reduced as int) == shrink_pass(
            items@,
            elig@,
            ints(old(sizes)@),
            deficit as int,
            per_item as int,
            0,
            0,
        ),
        0 <= reduced <= deficit,
{
    let ghost start = ints(sizes@);
    let mut reduced: i128 = 0;
    let mut i: usize = 0;
    while i < items.len()
        invariant
            0 <= i <= items@.len(),
            within_bounds(items@, sizes@),
            elig@.len() == items@.len(),
            0 < deficit,
            per_item >= 1,
            0 <= reduced <= deficit,
            shrink_pass(
                items@,
                elig@,
                ints(sizes@),
                deficit as int,
                per_item as int,
                i as nat,
                reduced as int,
            ) == shrink_pass(items@, elig@, start, deficit as int, per_item as int, 0, 0),
        decreases items@.len() - i,
    {
        if elig[i] {
            let it = items[i];
            let room: i128 = sizes[i] as i128 - it.1 as i128;
            let left: i128 = deficit - reduced;
            let m = if room <= left {
                room
            } else {
                left
            };
            let cut = if m <= per_item {
                m
            } else {
                per_item
            };
            if cut > 0 {
                let ghost before = ints(sizes@);
                let v = (sizes[i] as i128 - cut) as i32;
                sizes.set(i, v);
                reduced = reduced + cut;
                assert(ints(sizes@) =~= before.update(i as int, before[i as int] - cut));
            }
        }
        i = i + 1;
    }
    reduced
}

/// Shrinks the sizes in rounds, as [`shrink`] describes it.
fn shrink_sizes(items: &[SpaceItem], sizes: &mut Vec<i32>, initial: i128)
    requires
        within_bounds(items@, old(sizes)@),
        0 < initial,
    ensures
        within_bounds(items@, final(sizes)@),
        ints(final(sizes)@) == shrink(items@, ints(old(sizes)@), initial as int, DISTRIBUTION_ROUNDS as nat),
{
    let mut deficit = initial;
    let mut round: u32 = 0;
    loop
        invariant_except_break
            within_bounds(items@, sizes@),
            0 <= deficit,
            round <= DISTRIBUTION_ROUNDS,
            shrink(items@, ints(sizes@), deficit as int, (DISTRIBUTION_ROUNDS - round) as nat)
                == shrink(items@, ints(old(sizes)@), initial as int, DISTRIBUTION_ROUNDS as nat),
        ensures
            within_bounds(items@, sizes@),
            ints(sizes@) == shrink(items@, ints(old(sizes)@), initial as int, DISTRIBUTION_ROUNDS as nat),
        decreases DISTRIBUTION_ROUNDS - round,
    {
        if round >= DISTRIBUTION_ROUNDS || deficit <= 0 {
            break;
        }
        let (elig, count) = shrink_flags(items, sizes);
        if count == 0 {
            break;
        }
        let q = deficit / count as i128;
        let per_item = if q >= 1 {
            q
        } else {
            1
        };
        let reduced = shrink_round(items, sizes, &elig, deficit, per_item);
        if reduced == 0 {
            break;
        }
        deficit = deficit - reduced;
        round = round + 1;
    }
}

/// The distribution when no item has a stretch factor.
fn distribute_without_stretch(items: &[SpaceItem], available_span: i32) -> (r: Vec<i32>)
    requires
        bounds_ordered(items@),
        items@.len() > 0,
        stretch_sum(items@) == 0,
    ensures
        ints(r@) == ({
            let base = base_sizes(items@);
            let slack = available_span - sum(base);
            if slack > 0 {
                grow(items@, base, slack, DISTRIBUTION_ROUNDS as nat)
            } else if slack < 0 {
                shrink(items@, base, -slack, DISTRIBUTION_ROUNDS as nat)
            } else {
                base
            }
        }),
        r@.len() == items@.len(),
        forall|i: int| 0 <= i < r@.len() ==> items@[i].1 <= #[trigger] r@[i] <= items@[i].2,
{
    let count = items.len();
    let ghost base = base_sizes(items@);
    let mut sizes: Vec<i32> = Vec::new();
    let mut total: i128 = 0;
    let mut i: usize = 0;
    while i < count
        invariant
            0 <= i <= count == items@.len(),
            bounds_ordered(items@),
            base == base_sizes(items@),
            sizes@.len() == i,
            forall|j: int| 0 <= j < i ==> #[trigger] sizes@[j] as int == base[j],
            forall|j: int| 0 <= j < i ==> items@[j].1 <= #[trigger] sizes@[j] <= items@[j].2,
            total == sum(base.subrange(0, i as int)),
            -(i as int) * 0x8000_0000 <= total <= (i as int) * 0x8000_0000,
        decreases count - i,
    {
        proof {
            lemma_prefix_step(base, i as int);
        }
        assert(items@[i as int].1 <= items@[i as int].2);
        let b = item_base_size(items[i]);
        sizes.push(b);
        total = total + b as i128;
        i = i + 1;
        assert((i - 1) as int * 0x8000_0000 + 0x8000_0000 == (i as int) * 0x8000_0000)
            by (nonlinear_arith);
    }
    assert(base.subrange(0, count as int) =~= base);
    assert(ints(sizes@) =~= base);
    assert(total < 0x1_0000_0000_0000_0000_0000_0000 && total > -0x1_0000_0000_0000_0000_0000_0000)
        by (nonlinear_arith)
        requires
            -(count as int) * 0x8000_0000 <= total <= (count as int) * 0x8000_0000,
            count <= usize::MAX,
    ;
    let slack: i128 = available_span as i128 - total;
    if slack > 0 {
        grow_sizes(items, &mut sizes, slack);
    } else if slack < 0 {
        shrink_sizes(items, &mut sizes, -slack);
    }
    sizes
}

/// Number of items with a stretch factor.
spec fn stretched_count(items: Seq<SpaceItem>) -> int
    decreases items.len(),
{
    if items.len() == 0 {
        0
    } else {
        stretched_count(items.drop_last()) + if items.last().4 > 0 {
            1int
        } else {
            0
        }
    }
}

/// Number of items with a stretch factor from position `k` on.
spec fn stretched_count_from(items: Seq<SpaceItem>, k: nat) -> int
    decreases items.len() - k,
{
    if k >= items.len() {
        0
    } else {
        (if items[k as int].4 > 0 {
            1int
        } else {
            0
        }) + stretched_count_from(items, k + 1)
    }
}

proof fn lemma_stretched_count_nonneg(items: Seq<SpaceItem>)
    ensures
        stretched_count(items) >= 0,
    decreases items.len(),
{
    if items.len() > 0 {
        lemma_stretched_count_nonneg(items.drop_last());
    }
}

proof fn lemma_stretched_count_from_nonneg(items: Seq<SpaceItem>, k: nat)
    ensures
        stretched_count_from(items, k) >= 0,
    decreases items.len() - k,
{
    if k < items.len() {
        lemma_stretched_count_from_nonneg(items, k + 1);
    }
}

/// The stretched items of a prefix and those after it are all of them.
proof fn lemma_stretched_count_split(items: Seq<SpaceItem>, n: int)
    requires
        0 <= n <= items.len(),
    ensures
        stretched_count(items.subrange(0, n)) + stretched_count_from(items, n as nat)
            == stretched_count(items),
    decreases items.len() - n,
{
    if n < items.len() {
        lemma_prefix_step(items, n);
        lemma_stretched_count_split(items, n + 1);
    } else {
        assert(items.subrange(0, n) =~= items);
    }
}

/// Changing one entry changes the sum by the difference.
proof fn lemma_sum_update(s: Seq<int>, k: int, v: int)
    requires
        0 <= k < s.len(),
    ensures
        sum(s.update(k, v)) == sum(s) - s[k] + v,
    decreases s.len(),
{
    let t = s.update(k, v);
    if k == s.len() - 1 {
        assert(t.drop_last() =~= s.drop_last());
    } else {
        assert(t.drop_last() =~= s.drop_last().update(k, v));
        lemma_sum_update(s.drop_last(), k, v);
    }
}

/// Sizes that give the items without stretch their base sizes add up to the
/// fixed sum plus the sizes of the stretched items.
proof fn lemma_sum_splits(items: Seq<SpaceItem>, s: Seq<int>, n: int)
    requires
        s.len() == items.len(),
        0 <= n <= items.len(),
        forall|j: int| 0 <= j < items.len() && items[j].4 == 0 ==> s[j] == base_size(items[j]),
    ensures
        sum(s.subrange(0, n)) == fixed_sum(items.subrange(0, n)) + stretched_sum(
            items.subrange(0, n),
            s,
        ),
    decreases n,
{
    if n > 0 {
        lemma_prefix_step(items, n - 1);
        lemma_prefix_step(s, n - 1);
        lemma_sum_splits(items, s, n - 1);
    } else {
        assert(s.subrange(0, 0).len() == 0);
        assert(items.subrange(0, 0).len() == 0);
    }
}

/// The proportional shares, rounded down, of a prefix of the items: together
/// they are at most the prefix's exact share, and short of it by less than one
/// unit per stretched item.
proof fn lemma_first_pass_floor_sum(items: Seq<SpaceItem>, space: int, n: int)
    requires
        stretch_sum(items) > 0,
        space >= 0,
        0 <= n <= items.len(),
        forall|j: int|
            0 <= j < items.len() && items[j].4 > 0 ==> items[j].1 <= space * items[j].4
                / stretch_sum(items) <= items[j].2,
    ensures
        stretch_sum(items) * stretched_sum(items.subrange(0, n), stretch_first_pass(items, space))
            <= space * stretch_sum(items.subrange(0, n)),
        space * stretch_sum(items.subrange(0, n)) - stretch_sum(items) * stretched_sum(
            items.subrange(0, n),
            stretch_first_pass(items, space),
        ) <= (stretch_sum(items) - 1) * stretched_count(items.subrange(0, n)),
    decreases n,
{
    let total = stretch_sum(items);
    let first = stretch_first_pass(items, space);
    if n > 0 {
        lemma_prefix_step(items, n - 1);
        lemma_first_pass_floor_sum(items, space, n - 1);
        let st0 = stretched_sum(items.subrange(0, n - 1), first);
        let ss0 = stretch_sum(items.subrange(0, n - 1));
        let c0 = stretched_count(items.subrange(0, n - 1));
        let st = stretched_sum(items.subrange(0, n), first);
        let ss = stretch_sum(items.subrange(0, n));
        let c = stretched_count(items.subrange(0, n));
        let w = items[n - 1].4 as int;
        if w > 0 {
            let q = space * w / total;
            assert(first[n - 1] == q);
            assert(st == st0 + q);
            assert(ss == ss0 + w);
            assert(c == c0 + 1);
            assert(total * q <= space * w <= total * q + total - 1) by (nonlinear_arith)
                requires
                    total > 0,
                    space >= 0,
                    w > 0,
                    q == space * w / total,
            ;
            assert(total * st <= space * ss && space * ss - total * st <= (total - 1) * c)
                by (nonlinear_arith)
                requires
                    total * st0 <= space * ss0,
                    space * ss0 - total * st0 <= (total - 1) * c0,
                    total * q <= space * w <= total * q + total - 1,
                    st == st0 + q,
                    ss == ss0 + w,
                    c == c0 + 1,
            ;
        } else {
            assert(st == st0);
            assert(ss == ss0);
            assert(c == c0);
        }
    } else {
        assert(items.subrange(0, 0).len() == 0);
    }
}

/// The rounding pass, with no more remainder than stretched items below
/// their maximum, hands out all of it: one unit each to the first stretched
/// items from `k` on, nothing to the others.
proof fn lemma_remainder_hands_out_all(items: Seq<SpaceItem>, sizes: Seq<int>, k: nat, rem: int)
    requires
        sizes.len() == items.len(),
        0 <= rem <= stretched_count_from(items, k),
        forall|j: int| k <= j < items.len() && items[j].4 > 0 ==> sizes[j] < items[j].2,
    ensures
        stretch_remainder(items, sizes, k, rem).len() == items.len(),
        sum(stretch_remainder(items, sizes, k, rem)) == sum(sizes) + rem,
        forall|j: int|
            0 <= j < k && j < items.len() ==> #[trigger] stretch_remainder(items, sizes, k, rem)[j]
                == sizes[j],
        forall|j: int|
            0 <= j < items.len() ==> #[trigger] stretch_remainder(items, sizes, k, rem)[j]
                == sizes[j] || (stretch_remainder(items, sizes, k, rem)[j] == sizes[j] + 1
                && items[j].4 > 0),
    decreases items.len() - k,
{
    if k < items.len() {
        if items[k as int].4 > 0 && sizes[k as int] < items[k as int].2 && rem > 0 {
            let next = sizes.update(k as int, sizes[k as int] + 1);
            lemma_sum_update(sizes, k as int, sizes[k as int] + 1);
            lemma_remainder_hands_out_all(items, next, k + 1, rem - 1);
        } else {
            lemma_stretched_count_from_nonneg(items, k + 1);
            lemma_remainder_hands_out_all(items, sizes, k + 1, rem);
        }
    }
}

/// With stretch factors, when the space that the items without stretch leave
/// is shared out without any stretched item meeting its minimum or maximum,
/// the items fill the available span exactly: the stretched items take all
/// the rest, each its share in proportion to its stretch, rounded down or up.
pub proof fn lemma_stretched_items_fill_span(items: Seq<SpaceItem>, available: int)
    requires
        stretch_sum(items) > 0,
        available >= fixed_sum(items),
        forall|j: int|
            0 <= j < items.len() && items[j].4 > 0 ==> items[j].1 <= (available - fixed_sum(items))
                * items[j].4 / stretch_sum(items) < items[j].2,
    ensures
        sum(distribution(items, available)) == available,
        forall|j: int|
            0 <= j < items.len() && items[j].4 > 0 ==> {
                let share = (available - fixed_sum(items)) * items[j].4 / stretch_sum(items);
                #[trigger] distribution(items, available)[j] == share || distribution(
                    items,
                    available,
                )[j] == share + 1
            },
{
    let total = stretch_sum(items);
    let space = available - fixed_sum(items);
    let first = stretch_first_pass(items, space);
    let n = items.len() as int;
    assert(items.subrange(0, n) =~= items);
    assert(first.subrange(0, n) =~= first);
    lemma_first_pass_floor_sum(items, space, n);
    let st = stretched_sum(items, first);
    let c = stretched_count(items);
    lemma_stretched_count_nonneg(items);
    assert(0 <= space - st <= c) by (nonlinear_arith)
        requires
            total > 0,
            c >= 0,
            total * st <= space * total,
            space * total - total * st <= (total - 1) * c,
    ;
    lemma_stretched_count_split(items, 0);
    assert(items.subrange(0, 0).len() == 0);
    assert forall|j: int| 0 <= j < items.len() && items[j].4 > 0 implies first[j] == space
        * items[j].4 / total by {}
    lemma_remainder_hands_out_all(items, first, 0, space - st);
    lemma_sum_splits(items, first, n);
}

} // verus!
