//! The aggregator: sums of line values under an inclusion rule.
//!
//! The sums are stated over unbounded naturals. The executable functions
//! return them capped at `u64::MAX`, which loses nothing for a comparison
//! with a threshold that is itself a `u64`.

use vstd::prelude::*;
use crate::cart::{cart_view, ids_view, CartLine, CartLineView, Merchandise, MerchandiseView};

verus! {

/// The value of one line: its unit cost times its quantity.
pub open spec fn line_value(line: CartLineView) -> nat {
    (line.unit_cost as nat) * (line.quantity as nat)
}

/// The value of every line of the cart, whatever it sells.
pub open spec fn cart_total(lines: Seq<CartLineView>) -> nat
    decreases lines.len(),
{
    if lines.len() == 0 {
        0
    } else {
        cart_total(lines.drop_last()) + line_value(lines.last())
    }
}

/// Whether a line counts towards the total that leaves out `excluded`: it
/// sells a product variant, and no record with the membership flag set puts
/// its product in one of the `excluded` collections.
pub open spec fn counts_outside(line: CartLineView, excluded: Seq<Seq<char>>) -> bool {
    match line.merchandise {
        MerchandiseView::ProductVariant(variant) => !variant.product.is_member_of_any(excluded),
        MerchandiseView::Other => false,
    }
}

/// The value of the lines that count outside the `excluded` collections.
pub open spec fn total_excluding(lines: Seq<CartLineView>, excluded: Seq<Seq<char>>) -> nat
    decreases lines.len(),
{
    if lines.len() == 0 {
        0
    } else {
        total_excluding(lines.drop_last(), excluded) + if counts_outside(lines.last(), excluded) {
            line_value(lines.last())
        } else {
            0
        }
    }
}

/// A natural number capped at `u64::MAX`.
pub open spec fn capped(n: nat) -> u64 {
    if n <= u64::MAX {
        n as u64
    } else {
        u64::MAX
    }
}

/// The value of one line, capped at `u64::MAX`.
pub fn line_value_capped(line: &CartLine) -> (value: u64)
    ensures
        value == capped(line_value(line@)),
{
    match line.unit_cost.checked_mul(line.quantity) {
        Some(value) => value,
        None => u64::MAX,
    }
}

/// The value of the whole cart, capped at `u64::MAX`.
pub fn sum_cart(lines: &Vec<CartLine>) -> (sum: u64)
    ensures
        sum == capped(cart_total(cart_view(lines@))),
{
    let mut sum: u64 = 0;
    let mut i: usize = 0;
    while i < lines.len()
        invariant
            i <= lines.len(),
            sum == capped(cart_total(cart_view(lines@).take(i as int))),
        decreases lines.len() - i,
    {
        proof {
            let next = cart_view(lines@).take(i + 1);
            assert(next.drop_last() =~= cart_view(lines@).take(i as int));
            assert(next.last() == lines@[i as int]@);
        }
        sum = sum.saturating_add(line_value_capped(&lines[i]));
        i += 1;
    }
    assert(cart_view(lines@).take(i as int) =~= cart_view(lines@));
    sum
}

/// Whether a line counts towards the total that leaves out `excluded`.
pub fn line_counts_outside(line: &CartLine, excluded: &Vec<String>) -> (counts: bool)
    ensures
        counts == counts_outside(line@, ids_view(excluded@)),
{
    match &line.merchandise {
        Merchandise::ProductVariant(variant) => !variant.product.is_member_of_any(excluded),
        Merchandise::Other => false,
    }
}

/// The value of the lines that count outside the `excluded` collections,
/// capped at `u64::MAX`.
pub fn sum_excluding(lines: &Vec<CartLine>, excluded: &Vec<String>) -> (sum: u64)
    ensures
        sum == capped(total_excluding(cart_view(lines@), ids_view(excluded@))),
{
    let mut sum: u64 = 0;
    let mut i: usize = 0;
    while i < lines.len()
        invariant
            i <= lines.len(),
            sum == capped(
                total_excluding(cart_view(lines@).take(i as int), ids_view(excluded@)),
            ),
        decreases lines.len() - i,
    {
        proof {
            let next = cart_view(lines@).take(i + 1);
            assert(next.drop_last() =~= cart_view(lines@).take(i as int));
            assert(next.last() == lines@[i as int]@);
        }
        if line_counts_outside(&lines[i], excluded) {
            sum = sum.saturating_add(line_value_capped(&lines[i]));
        }
        i += 1;
    }
    assert(cart_view(lines@).take(i as int) =~= cart_view(lines@));
    sum
}

/// A threshold that is a `u64` is cleared by a total exactly when it is
/// cleared by the capped total.
pub proof fn lemma_capped_clears(total: nat, threshold: u64)
    ensures
        capped(total) >= threshold <==> total >= threshold,
{
}

} // verus!
