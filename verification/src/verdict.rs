//! The outcome of one evaluation, and its mathematical view.

use vstd::prelude::*;

verus! {

/// What a discount applies to. `quantity` limits the discount to that many
/// units; `None` leaves the whole line or variant discounted.
#[derive(Clone, Debug, PartialEq, Eq)]
pub enum Target {
    CartLine { id: String, quantity: Option<u64> },
    ProductVariant { id: String, quantity: Option<u64> },
}

pub enum TargetView {
    CartLine { id: Seq<char>, quantity: Option<u64> },
    ProductVariant { id: Seq<char>, quantity: Option<u64> },
}

impl View for Target {
    type V = TargetView;

    open spec fn view(&self) -> TargetView {
        match *self {
            Target::CartLine { id, quantity } => TargetView::CartLine { id: id@, quantity },
            Target::ProductVariant { id, quantity } => TargetView::ProductVariant {
                id: id@,
                quantity,
            },
        }
    }
}

/// The views of a list of targets, in order.
pub open spec fn targets_view(targets: Seq<Target>) -> Seq<TargetView> {
    targets.map_values(|t: Target| t@)
}

/// One percentage discount: `rate` is in hundredths of a percent.
#[derive(Clone, Debug, PartialEq, Eq)]
pub struct Discount {
    pub message: String,
    pub targets: Vec<Target>,
    pub rate: u64,
}

pub struct DiscountView {
    pub message: Seq<char>,
    pub targets: Seq<TargetView>,
    pub rate: u64,
}

impl View for Discount {
    type V = DiscountView;

    open spec fn view(&self) -> DiscountView {
        DiscountView {
            message: self.message@,
            targets: targets_view(self.targets@),
            rate: self.rate,
        }
    }
}

/// How the platform is to combine the discounts of a verdict.
#[derive(Clone, Copy, Debug, PartialEq, Eq)]
pub enum ApplicationStrategy {
    First,
    Maximum,
    All,
}

/// The result of one evaluation: no discount, or exactly one.
#[derive(Clone, Debug, PartialEq, Eq)]
pub struct Verdict {
    pub discounts: Vec<Discount>,
    pub strategy: ApplicationStrategy,
}

pub struct VerdictView {
    pub discounts: Seq<DiscountView>,
    pub strategy: ApplicationStrategy,
}

impl View for Verdict {
    type V = VerdictView;

    open spec fn view(&self) -> VerdictView {
        VerdictView {
            discounts: self.discounts@.map_values(|d: Discount| d@),
            strategy: self.strategy,
        }
    }
}

/// The verdict that grants nothing.
pub open spec fn no_discount_view() -> VerdictView {
    VerdictView { discounts: Seq::empty(), strategy: ApplicationStrategy::First }
}

/// The verdict that grants exactly `discount`.
pub open spec fn single_discount_view(discount: DiscountView) -> VerdictView {
    VerdictView { discounts: seq![discount], strategy: ApplicationStrategy::First }
}

impl Verdict {
    /// The verdict that grants nothing.
    pub fn no_discount() -> (verdict: Verdict)
        ensures
            verdict@ == no_discount_view(),
    {
        let verdict = Verdict { discounts: Vec::new(), strategy: ApplicationStrategy::First };
        assert(verdict@.discounts =~= Seq::empty());
        verdict
    }

    /// The verdict that grants exactly `discount`.
    pub fn single(discount: Discount) -> (verdict: Verdict)
        ensures
            verdict@ == single_discount_view(discount@),
    {
        let mut discounts: Vec<Discount> = Vec::new();
        discounts.push(discount);
        let verdict = Verdict { discounts, strategy: ApplicationStrategy::First };
        assert(verdict@.discounts =~= seq![discount@]);
        verdict
    }
}

} // verus!
