//! The selector: which threshold tier a cart value unlocks.
//!
//! Among the tiers whose threshold the value reaches, the one with the
//! greatest threshold wins; among several with that same threshold, the one
//! that comes first in the configuration.

use vstd::prelude::*;

verus! {

/// A threshold tier: the minimum cart value, in hundredths of the currency
/// unit, that unlocks the discounts of a collection.
#[derive(Clone, Debug, PartialEq, Eq)]
pub struct CollectionMapping {
    pub collection: String,
    pub threshold: u64,
}

pub struct TierView {
    pub collection: Seq<char>,
    pub threshold: u64,
}

impl View for CollectionMapping {
    type V = TierView;

    open spec fn view(&self) -> TierView {
        TierView { collection: self.collection@, threshold: self.threshold }
    }
}

/// The views of a list of tiers, in order.
pub open spec fn tiers_view(tiers: Seq<CollectionMapping>) -> Seq<TierView> {
    tiers.map_values(|tier: CollectionMapping| tier@)
}

/// Whether tier `i` wins among the first `n` tiers: the value reaches its
/// threshold, no tier that the value reaches has a greater threshold, and
/// every earlier tier that the value reaches has a smaller one.
pub open spec fn wins_among(aggregate: nat, tiers: Seq<TierView>, n: int, i: int) -> bool {
    &&& 0 <= i < n <= tiers.len()
    &&& tiers[i].threshold <= aggregate
    &&& forall|j: int|
        0 <= j < n && (#[trigger] tiers[j]).threshold <= aggregate ==> tiers[j].threshold
            <= tiers[i].threshold
    &&& forall|j: int|
        0 <= j < i && (#[trigger] tiers[j]).threshold <= aggregate ==> tiers[j].threshold
            < tiers[i].threshold
}

/// Whether tier `i` wins among all the tiers.
pub open spec fn wins(aggregate: nat, tiers: Seq<TierView>, i: int) -> bool {
    wins_among(aggregate, tiers, tiers.len() as int, i)
}

/// The index of the winning tier, if the value reaches any threshold.
pub open spec fn winning_tier(aggregate: nat, tiers: Seq<TierView>) -> Option<int> {
    if exists|i: int| wins(aggregate, tiers, i) {
        Some(choose|i: int| wins(aggregate, tiers, i))
    } else {
        None
    }
}

/// At most one tier wins.
pub proof fn lemma_winner_is_unique(aggregate: nat, tiers: Seq<TierView>, i: int, j: int)
    requires
        wins(aggregate, tiers, i),
        wins(aggregate, tiers, j),
    ensures
        i == j,
{
    if i < j {
        assert(tiers[i].threshold < tiers[j].threshold);
    } else if j < i {
        assert(tiers[j].threshold < tiers[i].threshold);
    }
}

/// A tier that wins is the winning tier.
pub proof fn lemma_winner_is_selected(aggregate: nat, tiers: Seq<TierView>, i: int)
    requires
        wins(aggregate, tiers, i),
    ensures
        winning_tier(aggregate, tiers) == Some(i),
{
    let chosen = choose|k: int| wins(aggregate, tiers, k);
    lemma_winner_is_unique(aggregate, tiers, i, chosen);
}

/// Where the value reaches no threshold, no tier wins.
pub proof fn lemma_no_tier_cleared(aggregate: nat, tiers: Seq<TierView>)
    requires
        forall|j: int| 0 <= j < tiers.len() ==> (#[trigger] tiers[j]).threshold > aggregate,
    ensures
        winning_tier(aggregate, tiers) is None,
{
}

/// Selects the winning tier for a cart value.
pub fn select(aggregate: u64, tiers: &Vec<CollectionMapping>) -> (winner: Option<usize>)
    ensures
        match winner {
            Some(i) => i < tiers.len() && winning_tier(aggregate as nat, tiers_view(tiers@))
                == Some(i as int),
            None => winning_tier(aggregate as nat, tiers_view(tiers@)) is None,
        },
{
    let ghost views = tiers_view(tiers@);
    let mut best: Option<usize> = None;
    let mut k: usize = 0;
    while k < tiers.len()
        invariant
            k <= tiers.len(),
            views == tiers_view(tiers@),
            match best {
                Some(b) => wins_among(aggregate as nat, views, k as int, b as int),
                None => forall|j: int| 0 <= j < k ==> (#[trigger] views[j]).threshold > aggregate,
            },
        decreases tiers.len() - k,
    {
        assert(views[k as int] == tiers@[k as int]@);
        if aggregate >= tiers[k].threshold {
            match best {
                Some(b) => {
                    assert(views[b as int] == tiers@[b as int]@);
                    if tiers[k].threshold > tiers[b].threshold {
                        best = Some(k);
                    }
                },
                None => {
                    best = Some(k);
                },
            }
        }
        k += 1;
    }
    proof {
        match best {
            Some(b) => {
                lemma_winner_is_selected(aggregate as nat, views, b as int);
            },
            None => {
                lemma_no_tier_cleared(aggregate as nat, views);
            },
        }
    }
    best
}

/// The winning tier clears the value, has the greatest threshold among the
/// tiers that do, and comes before every other tier with that threshold.
pub proof fn lemma_winning_tier_is_greatest_and_first(aggregate: nat, tiers: Seq<TierView>)
    ensures
        match winning_tier(aggregate, tiers) {
            Some(w) => {
                &&& 0 <= w < tiers.len()
                &&& tiers[w].threshold <= aggregate
                &&& forall|j: int|
                    0 <= j < tiers.len() && (#[trigger] tiers[j]).threshold <= aggregate
                        ==> tiers[j].threshold <= tiers[w].threshold
                &&& forall|j: int|
                    0 <= j < tiers.len() && (#[trigger] tiers[j]).threshold
                        == tiers[w].threshold ==> w <= j
            },
            None => forall|j: int|
                0 <= j < tiers.len() ==> (#[trigger] tiers[j]).threshold > aggregate,
        },
{
    match winning_tier(aggregate, tiers) {
        Some(w) => {
            assert(wins(aggregate, tiers, w));
            assert forall|j: int|
                0 <= j < tiers.len() && (#[trigger] tiers[j]).threshold
                    == tiers[w].threshold implies w <= j by {
                if j < w {
                    assert(tiers[j].threshold < tiers[w].threshold);
                }
            }
        },
        None => {
            assert forall|j: int| 0 <= j < tiers.len() implies (#[trigger] tiers[j]).threshold
                > aggregate by {
                if tiers[j].threshold <= aggregate {
                    lemma_some_tier_wins(aggregate, tiers, tiers.len() as int, j);
                    let i = choose|i: int| wins_among(aggregate, tiers, tiers.len() as int, i);
                    assert(wins(aggregate, tiers, i));
                }
            }
        },
    }
}

/// Where the value reaches the threshold of one of the first `n` tiers, one
/// of them wins among the first `n`.
pub proof fn lemma_some_tier_wins(aggregate: nat, tiers: Seq<TierView>, n: int, j: int)
    requires
        0 <= j < n <= tiers.len(),
        tiers[j].threshold <= aggregate,
    ensures
        exists|i: int| wins_among(aggregate, tiers, n, i),
    decreases n,
{
    let last = n - 1;
    if exists|m: int| 0 <= m < last && (#[trigger] tiers[m]).threshold <= aggregate {
        let m = choose|m: int| 0 <= m < last && (#[trigger] tiers[m]).threshold <= aggregate;
        lemma_some_tier_wins(aggregate, tiers, last, m);
        let before = choose|i: int| wins_among(aggregate, tiers, last, i);
        if tiers[last].threshold <= aggregate && tiers[last].threshold > tiers[before].threshold {
            assert(wins_among(aggregate, tiers, n, last));
        } else {
            assert(wins_among(aggregate, tiers, n, before));
        }
    } else {
        assert(j == last);
        assert(wins_among(aggregate, tiers, n, last));
    }
}

/// The threshold is inclusive: a value equal to the threshold of some tier
/// unlocks a tier, and the winning tier has exactly that threshold.
pub proof fn lemma_threshold_is_inclusive(aggregate: nat, tiers: Seq<TierView>, i: int)
    requires
        0 <= i < tiers.len(),
        tiers[i].threshold == aggregate,
    ensures
        winning_tier(aggregate, tiers) matches Some(w) && tiers[w].threshold == aggregate,
{
    lemma_winning_tier_is_greatest_and_first(aggregate, tiers);
}

/// Of two tiers with the same threshold, the later one never wins.
pub proof fn lemma_first_of_tied_tiers_wins(aggregate: nat, tiers: Seq<TierView>, i: int, j: int)
    requires
        0 <= i < j < tiers.len(),
        tiers[i].threshold == tiers[j].threshold,
    ensures
        winning_tier(aggregate, tiers) != Some(j),
{
    lemma_winning_tier_is_greatest_and_first(aggregate, tiers);
}

/// A value capped at `u64::MAX` selects the tier that the value selects.
pub proof fn lemma_capped_value_selects_the_same(aggregate: nat, tiers: Seq<TierView>)
    ensures
        winning_tier(crate::aggregate::capped(aggregate) as nat, tiers) == winning_tier(
            aggregate,
            tiers,
        ),
{
    let capped = crate::aggregate::capped(aggregate) as nat;
    assert forall|i: int| wins(capped, tiers, i) <==> wins(aggregate, tiers, i) by {
        assert forall|j: int| 0 <= j < tiers.len() implies ((#[trigger] tiers[j]).threshold
            <= capped <==> tiers[j].threshold <= aggregate) by {}
    }
    if exists|i: int| wins(aggregate, tiers, i) {
        let i = choose|i: int| wins(aggregate, tiers, i);
        lemma_winner_is_selected(capped, tiers, i);
    }
}

} // verus!
