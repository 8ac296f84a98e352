//! The fixed-rule engine: one target collection, one flat rate, one minimum
//! cart value.
//!
//! The whole cart is summed, whatever its lines sell. Where the sum reaches
//! the rule's threshold, every line whose product is a member of the target
//! collection becomes a target of one discount at the rule's rate. Where the
//! sum falls short, or no line is eligible, there is no discount.

use vstd::prelude::*;
use crate::aggregate::{capped, cart_total, lemma_capped_clears, sum_cart};
use crate::cart::{cart_view, CartLine, CartLineView, Merchandise, MerchandiseView};
use crate::verdict::{
    no_discount_view, single_discount_view, targets_view, Discount, DiscountView, Target,
    TargetView, Verdict, VerdictView,
};

verus! {

/// The rule that the engine evaluates. `rate` is in hundredths of a percent
/// and `threshold` in hundredths of the currency unit.
#[derive(Clone, Debug, PartialEq, Eq)]
pub struct FixedRule {
    pub target_collection: String,
    pub rate: u64,
    pub threshold: u64,
    pub message: String,
}

pub struct FixedRuleView {
    pub target_collection: Seq<char>,
    pub rate: u64,
    pub threshold: u64,
    pub message: Seq<char>,
}

impl View for FixedRule {
    type V = FixedRuleView;

    open spec fn view(&self) -> FixedRuleView {
        FixedRuleView {
            target_collection: self.target_collection@,
            rate: self.rate,
            threshold: self.threshold,
            message: self.message@,
        }
    }
}

/// The rule that ships with the engine: 15% off the lines of one collection
/// for carts worth at least 150.00.
pub open spec fn standard_rule() -> FixedRuleView {
    FixedRuleView {
        target_collection: "gid://shopify/Collection/496241049921"@,
        rate: 1500,
        threshold: 15000,
        message: "15% discount applied to eligible collection items."@,
    }
}

impl FixedRule {
    /// The rule that ships with the engine.
    pub fn standard() -> (rule: FixedRule)
        ensures
            rule@ == standard_rule(),
    {
        FixedRule {
            target_collection: "gid://shopify/Collection/496241049921".to_owned(),
            rate: 1500,
            threshold: 15000,
            message: "15% discount applied to eligible collection items.".to_owned(),
        }
    }
}

/// Whether a line is eligible: it sells a product variant whose product has
/// a record for `collection` with the membership flag set.
pub open spec fn eligible(line: CartLineView, collection: Seq<char>) -> bool {
    match line.merchandise {
        MerchandiseView::ProductVariant(variant) => variant.product.is_member_of(collection),
        MerchandiseView::Other => false,
    }
}

/// The target that an eligible line becomes: the line itself, in full.
pub open spec fn line_target(line: CartLineView) -> TargetView {
    TargetView::CartLine { id: line.id, quantity: None }
}

/// The targets of the cart: one for each eligible line, in cart order.
pub open spec fn eligible_targets(lines: Seq<CartLineView>, collection: Seq<char>) -> Seq<
    TargetView,
>
    decreases lines.len(),
{
    if lines.len() == 0 {
        Seq::empty()
    } else if eligible(lines.last(), collection) {
        eligible_targets(lines.drop_last(), collection).push(line_target(lines.last()))
    } else {
        eligible_targets(lines.drop_last(), collection)
    }
}

/// The verdict of the fixed-rule engine on a cart.
pub open spec fn evaluate(lines: Seq<CartLineView>, rule: FixedRuleView) -> VerdictView {
    let targets = eligible_targets(lines, rule.target_collection);
    if cart_total(lines) < rule.threshold || targets.len() == 0 {
        no_discount_view()
    } else {
        single_discount_view(
            DiscountView { message: rule.message, targets: targets, rate: rule.rate },
        )
    }
}

/// Whether a line is eligible for a discount on `collection`.
pub fn is_eligible(line: &CartLine, collection: &String) -> (found: bool)
    ensures
        found == eligible(line@, collection@),
{
    match &line.merchandise {
        Merchandise::ProductVariant(variant) => variant.product.is_member_of(collection),
        Merchandise::Other => false,
    }
}

/// Collects one target for each eligible line, in cart order.
pub fn find_targets(lines: &Vec<CartLine>, collection: &String) -> (targets: Vec<Target>)
    ensures
        targets_view(targets@) == eligible_targets(cart_view(lines@), collection@),
{
    let mut targets: Vec<Target> = Vec::new();
    let mut i: usize = 0;
    assert(targets_view(targets@) =~= Seq::empty());
    while i < lines.len()
        invariant
            i <= lines.len(),
            targets_view(targets@) == eligible_targets(
                cart_view(lines@).take(i as int),
                collection@,
            ),
        decreases lines.len() - i,
    {
        proof {
            let next = cart_view(lines@).take(i + 1);
            assert(next.drop_last() =~= cart_view(lines@).take(i as int));
            assert(next.last() == lines@[i as int]@);
        }
        if is_eligible(&lines[i], collection) {
            let ghost before = targets@;
            let target = Target::CartLine { id: lines[i].id.clone(), quantity: None };
            targets.push(target);
            assert(targets_view(targets@) =~= targets_view(before).push(
                line_target(lines@[i as int]@),
            ));
        }
        i += 1;
    }
    assert(cart_view(lines@).take(i as int) =~= cart_view(lines@));
    targets
}

/// Evaluates the rule on a cart.
pub fn run(lines: &Vec<CartLine>, rule: &FixedRule) -> (verdict: Verdict)
    ensures
        verdict@ == evaluate(cart_view(lines@), rule@),
{
    let total = sum_cart(lines);
    proof {
        lemma_capped_clears(cart_total(cart_view(lines@)), rule.threshold);
    }
    if total < rule.threshold {
        return Verdict::no_discount();
    }
    let targets = find_targets(lines, &rule.target_collection);
    if targets.len() == 0 {
        return Verdict::no_discount();
    }
    Verdict::single(Discount { message: rule.message.clone(), targets, rate: rule.rate })
}

/// A cart worth less than the threshold gets no discount, whatever
/// collections its products belong to.
pub proof fn lemma_below_threshold_no_discount(lines: Seq<CartLineView>, rule: FixedRuleView)
    requires
        cart_total(lines) < rule.threshold,
    ensures
        evaluate(lines, rule) == no_discount_view(),
{
}

/// The threshold is inclusive: a cart worth exactly the threshold, with at
/// least one eligible line, gets the discount on all its eligible lines.
pub proof fn lemma_threshold_is_inclusive(lines: Seq<CartLineView>, rule: FixedRuleView)
    requires
        cart_total(lines) == rule.threshold,
        eligible_targets(lines, rule.target_collection).len() > 0,
    ensures
        evaluate(lines, rule) == single_discount_view(
            DiscountView {
                message: rule.message,
                targets: eligible_targets(lines, rule.target_collection),
                rate: rule.rate,
            },
        ),
{
}

/// A line none of whose records for the target collection has the
/// membership flag set adds no target: the targets are those of the cart
/// without that line, whatever the other lines hold.
pub proof fn lemma_non_member_adds_no_target(
    lines: Seq<CartLineView>,
    k: int,
    collection: Seq<char>,
)
    requires
        0 <= k < lines.len(),
        lines[k].merchandise matches MerchandiseView::ProductVariant(variant) ==> forall|j: int|
            0 <= j < variant.product.in_collections.len() && (
            #[trigger] variant.product.in_collections[j]).collection_id == collection
                ==> !variant.product.in_collections[j].is_member,
    ensures
        eligible_targets(lines, collection) == eligible_targets(lines.remove(k), collection),
    decreases lines.len(),
{
    assert(!eligible(lines[k], collection));
    if k == lines.len() - 1 {
        assert(lines.remove(k) =~= lines.drop_last());
    } else {
        lemma_non_member_adds_no_target(lines.drop_last(), k, collection);
        assert(lines.remove(k).drop_last() =~= lines.drop_last().remove(k));
        assert(lines.remove(k).last() == lines.last());
    }
}

/// Every target stands for an eligible line, and every eligible line has
/// its target: the targets are as many as the eligible lines.
pub proof fn lemma_targets_are_the_eligible_lines(lines: Seq<CartLineView>, collection: Seq<char>)
    ensures
        eligible_targets(lines, collection).len() == lines.filter(
            |line: CartLineView| eligible(line, collection),
        ).len(),
        eligible_targets(lines, collection) == lines.filter(
            |line: CartLineView| eligible(line, collection),
        ).map_values(|line: CartLineView| line_target(line)),
    decreases lines.len(),
{
    let keep = |line: CartLineView| eligible(line, collection);
    reveal(Seq::filter);
    if lines.len() > 0 {
        lemma_targets_are_the_eligible_lines(lines.drop_last(), collection);
        assert(eligible_targets(lines, collection) =~= lines.filter(keep).map_values(
            |line: CartLineView| line_target(line),
        ));
    } else {
        assert(eligible_targets(lines, collection) =~= lines.filter(keep).map_values(
            |line: CartLineView| line_target(line),
        ));
    }
}

/// Evaluation is a function of the cart and the rule: two verdicts that are
/// both results of evaluating the same cart under the same rule are equal.
pub proof fn lemma_evaluation_is_deterministic(
    lines: Seq<CartLineView>,
    rule: FixedRuleView,
    first: VerdictView,
    second: VerdictView,
)
    requires
        first == evaluate(lines, rule),
        second == evaluate(lines, rule),
    ensures
        first == second,
{
}

} // verus!
