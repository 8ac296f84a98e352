//! The tiered engine: a list of threshold tiers, and rates that the products
//! advertise themselves.
//!
//! The lines that sell a product variant outside the excluded collections
//! are summed. The sum selects a tier. Among the lines whose product has a
//! record for the winning tier's collection (whatever its membership flag
//! says), the one whose discount schedule holds the greatest rate for that
//! collection becomes the single target, with the line's quantity; of two
//! lines with the same rate the earlier one stays.
//!
//! A configuration or a discount schedule that is present but malformed
//! aborts the evaluation. A schedule is only read on the lines that match
//! the winning tier, so a malformed one elsewhere does no harm.

use vstd::prelude::*;
use crate::aggregate::{sum_excluding, total_excluding};
use crate::cart::{
    cart_view, entries_view, ids_view, CartLine, CartLineView, CollectionDiscount, CollectionDiscountView,
    Merchandise, MerchandiseView, Payload, ScheduleView,
};
use crate::rate_text::{message_for, rate_message};
use crate::select::{
    lemma_capped_value_selects_the_same, lemma_winning_tier_is_greatest_and_first, select,
    tiers_view, winning_tier, CollectionMapping, TierView,
};
use crate::verdict::{
    no_discount_view, single_discount_view, Discount, DiscountView, Target, TargetView, Verdict,
    VerdictView,
};

verus! {

/// The configuration of one evaluation: the collections left out of the
/// cart value, and the tiers. Several tiers may name the same collection.
#[derive(Clone, Debug, PartialEq, Eq)]
pub struct Configuration {
    pub collection_ids: Vec<String>,
    pub mapping: Vec<CollectionMapping>,
}

pub struct ConfigurationView {
    pub collection_ids: Seq<Seq<char>>,
    pub mapping: Seq<TierView>,
}

impl View for Configuration {
    type V = ConfigurationView;

    open spec fn view(&self) -> ConfigurationView {
        ConfigurationView {
            collection_ids: ids_view(self.collection_ids@),
            mapping: tiers_view(self.mapping@),
        }
    }
}

pub enum ConfigurationPayloadView {
    Absent,
    Malformed,
    Parsed(ConfigurationView),
}

/// The view of a configuration as it reached the engine.
pub open spec fn configuration_view(config: Payload<Configuration>) -> ConfigurationPayloadView {
    match config {
        Payload::Absent => ConfigurationPayloadView::Absent,
        Payload::Malformed => ConfigurationPayloadView::Malformed,
        Payload::Parsed(configuration) => ConfigurationPayloadView::Parsed(configuration@),
    }
}

/// Why an evaluation was aborted.
#[derive(Clone, Copy, Debug, PartialEq, Eq)]
pub enum EvalError {
    /// The configuration was present but malformed.
    MalformedConfiguration,
    /// The discount schedule of a line that matches the winning tier was
    /// present but malformed.
    MalformedSchedule,
}

impl EvalError {
    /// A sentence that says what went wrong.
    pub fn describe(&self) -> (text: String)
        ensures
            text@ == match *self {
                EvalError::MalformedConfiguration =>
                    "Unable to parse configuration value from metafield"@,
                EvalError::MalformedSchedule => "Invalid discount metafield format"@,
            },
    {
        match self {
            EvalError::MalformedConfiguration => {
                "Unable to parse configuration value from metafield".to_owned()
            },
            EvalError::MalformedSchedule => "Invalid discount metafield format".to_owned(),
        }
    }
}

/// The rate that a schedule holds for `collection`: that of its first entry
/// for it.
pub open spec fn schedule_rate(entries: Seq<CollectionDiscountView>, collection: Seq<char>)
    -> Option<u64>
    decreases entries.len(),
{
    if entries.len() == 0 {
        None
    } else if entries.first().collection_id == collection {
        Some(entries.first().rate)
    } else {
        schedule_rate(entries.drop_first(), collection)
    }
}

/// Whether a line matches a tier's collection: it sells a product variant
/// whose product has a record for the collection. The membership flag of
/// the record is not consulted.
pub open spec fn matches_tier(line: CartLineView, collection: Seq<char>) -> bool {
    match line.merchandise {
        MerchandiseView::ProductVariant(variant) => variant.product.has_record_of(collection),
        MerchandiseView::Other => false,
    }
}

/// Whether a line aborts the evaluation: it matches the tier and its
/// discount schedule is malformed.
pub open spec fn blocks(line: CartLineView, collection: Seq<char>) -> bool {
    matches_tier(line, collection) && match line.merchandise {
        MerchandiseView::ProductVariant(variant) => variant.product.schedule
            is Malformed,
        MerchandiseView::Other => false,
    }
}

/// The rate that a line offers for a tier's collection: the line matches
/// the tier, and its schedule holds a rate for the collection.
pub open spec fn offer(line: CartLineView, collection: Seq<char>) -> Option<u64> {
    match line.merchandise {
        MerchandiseView::ProductVariant(variant) => if variant.product.has_record_of(
            collection,
        ) {
            match variant.product.schedule {
                ScheduleView::Parsed(entries) => schedule_rate(entries, collection),
                _ => None,
            }
        } else {
            None
        },
        MerchandiseView::Other => None,
    }
}

/// Whether line `k` holds the best offer among the first `n` lines: its
/// rate is above zero, no line offers more, and every earlier line offers
/// less.
pub open spec fn best_among(lines: Seq<CartLineView>, collection: Seq<char>, n: int, k: int)
    -> bool {
    &&& 0 <= k < n <= lines.len()
    &&& offer(lines[k], collection) matches Some(rate) && rate > 0
    &&& forall|j: int|
        0 <= j < n ==> (#[trigger] offer(lines[j], collection) matches Some(other) ==> other
            <= offer(lines[k], collection)->0)
    &&& forall|j: int|
        0 <= j < k ==> (#[trigger] offer(lines[j], collection) matches Some(other) ==> other
            < offer(lines[k], collection)->0)
}

/// Whether line `k` holds the best offer of the cart.
pub open spec fn is_best(lines: Seq<CartLineView>, collection: Seq<char>, k: int) -> bool {
    best_among(lines, collection, lines.len() as int, k)
}

/// The index of the line with the best offer, if any line offers a rate
/// above zero.
pub open spec fn best_line(lines: Seq<CartLineView>, collection: Seq<char>) -> Option<int> {
    if exists|k: int| is_best(lines, collection, k) {
        Some(choose|k: int| is_best(lines, collection, k))
    } else {
        None
    }
}

/// Whether some line aborts the evaluation for a tier's collection.
pub open spec fn some_line_blocks(lines: Seq<CartLineView>, collection: Seq<char>) -> bool {
    exists|k: int| 0 <= k < lines.len() && blocks(#[trigger] lines[k], collection)
}

/// The identifier of the variant that a line sells.
pub open spec fn variant_id(line: CartLineView) -> Seq<char> {
    match line.merchandise {
        MerchandiseView::ProductVariant(variant) => variant.id,
        MerchandiseView::Other => Seq::empty(),
    }
}

/// The discount that goes to a line at `rate`: the rate is the value and,
/// written out, the message; the target is the line's variant, limited to
/// the line's quantity.
pub open spec fn discount_for(line: CartLineView, rate: u64) -> DiscountView {
    DiscountView {
        message: rate_message(rate as nat),
        targets: seq![
            TargetView::ProductVariant { id: variant_id(line), quantity: Some(line.quantity) },
        ],
        rate: rate,
    }
}

/// The outcome of the targeting stage for a tier's collection.
pub open spec fn target_outcome(lines: Seq<CartLineView>, collection: Seq<char>) -> Result<
    VerdictView,
    EvalError,
> {
    if some_line_blocks(lines, collection) {
        Err(EvalError::MalformedSchedule)
    } else {
        match best_line(lines, collection) {
            Some(k) => Ok(
                single_discount_view(discount_for(lines[k], offer(lines[k], collection)->0)),
            ),
            None => Ok(no_discount_view()),
        }
    }
}

/// The outcome of the tiered engine on a cart.
pub open spec fn evaluate(lines: Seq<CartLineView>, config: ConfigurationPayloadView) -> Result<
    VerdictView,
    EvalError,
> {
    match config {
        ConfigurationPayloadView::Absent => Ok(no_discount_view()),
        ConfigurationPayloadView::Malformed => Err(EvalError::MalformedConfiguration),
        ConfigurationPayloadView::Parsed(configuration) => {
            let aggregate = total_excluding(lines, configuration.collection_ids);
            match winning_tier(aggregate, configuration.mapping) {
                Some(t) => target_outcome(lines, configuration.mapping[t].collection),
                None => Ok(no_discount_view()),
            }
        },
    }
}

/// Whether the results of an executable stage are those of its model.
pub open spec fn agrees(result: Result<Verdict, EvalError>, model: Result<VerdictView, EvalError>)
    -> bool {
    match result {
        Ok(verdict) => model == Ok::<VerdictView, EvalError>(verdict@),
        Err(error) => model == Err::<VerdictView, EvalError>(error),
    }
}

/// At most one line holds the best offer.
pub proof fn lemma_best_is_unique(lines: Seq<CartLineView>, collection: Seq<char>, a: int, b: int)
    requires
        is_best(lines, collection, a),
        is_best(lines, collection, b),
    ensures
        a == b,
{
    if a < b {
        assert(offer(lines[a], collection)->0 < offer(lines[b], collection)->0);
        assert(offer(lines[b], collection)->0 <= offer(lines[a], collection)->0);
    } else if b < a {
        assert(offer(lines[b], collection)->0 < offer(lines[a], collection)->0);
        assert(offer(lines[a], collection)->0 <= offer(lines[b], collection)->0);
    }
}

/// A line that holds the best offer is the best line.
pub proof fn lemma_best_is_selected(lines: Seq<CartLineView>, collection: Seq<char>, k: int)
    requires
        is_best(lines, collection, k),
    ensures
        best_line(lines, collection) == Some(k),
{
    let chosen = choose|i: int| is_best(lines, collection, i);
    lemma_best_is_unique(lines, collection, k, chosen);
}

/// Where no line offers a rate above zero, there is no best line.
pub proof fn lemma_no_offer_no_best(lines: Seq<CartLineView>, collection: Seq<char>)
    requires
        forall|j: int|
            0 <= j < lines.len() ==> (#[trigger] offer(lines[j], collection) matches Some(rate)
                ==> rate == 0),
    ensures
        best_line(lines, collection) is None,
{
    if exists|k: int| is_best(lines, collection, k) {
        let k = choose|k: int| is_best(lines, collection, k);
        assert(offer(lines[k], collection) matches Some(rate) ==> rate == 0);
    }
}

/// A rate found for `collection` among the first `k` entries of a schedule
/// is the rate of the schedule.
pub proof fn lemma_rate_of_first_match(
    entries: Seq<CollectionDiscountView>,
    collection: Seq<char>,
    k: int,
)
    requires
        0 <= k < entries.len(),
        entries[k].collection_id == collection,
        forall|i: int| 0 <= i < k ==> (#[trigger] entries[i]).collection_id != collection,
    ensures
        schedule_rate(entries, collection) == Some(entries[k].rate),
    decreases k,
{
    if k > 0 {
        let rest = entries.drop_first();
        assert forall|i: int| 0 <= i < k - 1 implies (#[trigger] rest[i]).collection_id
            != collection by {
            assert(rest[i] == entries[i + 1]);
        }
        lemma_rate_of_first_match(rest, collection, k - 1);
    }
}

/// A schedule without an entry for `collection` holds no rate for it.
pub proof fn lemma_no_match_no_rate(entries: Seq<CollectionDiscountView>, collection: Seq<char>)
    requires
        forall|i: int| 0 <= i < entries.len() ==> (#[trigger] entries[i]).collection_id != collection,
    ensures
        schedule_rate(entries, collection) is None,
    decreases entries.len(),
{
    if entries.len() > 0 {
        let rest = entries.drop_first();
        assert forall|i: int| 0 <= i < rest.len() implies (#[trigger] rest[i]).collection_id
            != collection by {
            assert(rest[i] == entries[i + 1]);
        }
        lemma_no_match_no_rate(rest, collection);
    }
}

/// Looks up the rate that a schedule holds for `collection`.
pub fn find_rate(entries: &Vec<CollectionDiscount>, collection: &String) -> (rate: Option<u64>)
    ensures
        rate == schedule_rate(entries_view(entries@), collection@),
{
    let ghost views = entries_view(entries@);
    let mut k: usize = 0;
    while k < entries.len()
        invariant
            k <= entries.len(),
            views == entries_view(entries@),
            forall|i: int| 0 <= i < k ==> (#[trigger] views[i]).collection_id != collection@,
        decreases entries.len() - k,
    {
        assert(views[k as int] == entries@[k as int]@);
        if entries[k].collection_id == *collection {
            proof {
                lemma_rate_of_first_match(views, collection@, k as int);
            }
            return Some(entries[k].rate);
        }
        k += 1;
    }
    proof {
        lemma_no_match_no_rate(views, collection@);
    }
    None
}

/// What the targeting stage reads off one line.
#[derive(Clone, Copy, Debug, PartialEq, Eq)]
pub enum LineOffer {
    /// The line does not match the tier, or offers no rate for it.
    Nothing,
    /// The line matches the tier and its schedule is malformed.
    Blocked,
    /// The line offers this rate.
    Rate(u64),
}

/// Reads off a line what it offers for a tier's collection.
pub fn read_offer(line: &CartLine, collection: &String) -> (found: LineOffer)
    ensures
        match found {
            LineOffer::Nothing => !blocks(line@, collection@) && offer(line@, collection@)
                is None,
            LineOffer::Blocked => blocks(line@, collection@),
            LineOffer::Rate(rate) => !blocks(line@, collection@) && offer(line@, collection@)
                == Some(rate),
        },
{
    match &line.merchandise {
        Merchandise::ProductVariant(variant) => {
            if !variant.product.has_record_of(collection) {
                return LineOffer::Nothing;
            }
            match &variant.product.schedule {
                Payload::Absent => LineOffer::Nothing,
                Payload::Malformed => LineOffer::Blocked,
                Payload::Parsed(entries) => match find_rate(entries, collection) {
                    Some(rate) => LineOffer::Rate(rate),
                    None => LineOffer::Nothing,
                },
            }
        },
        Merchandise::Other => LineOffer::Nothing,
    }
}

/// The discount that goes to a line at `rate`.
pub fn make_discount(line: &CartLine, rate: u64) -> (discount: Discount)
    ensures
        discount@ == discount_for(line@, rate),
{
    let id = match &line.merchandise {
        Merchandise::ProductVariant(variant) => variant.id.clone(),
        Merchandise::Other => String::new(),
    };
    let mut targets: Vec<Target> = Vec::new();
    targets.push(Target::ProductVariant { id, quantity: Some(line.quantity) });
    let discount = Discount { message: message_for(rate), targets, rate };
    assert(discount@.targets =~= discount_for(line@, rate).targets);
    discount
}

/// The targeting stage: scans the cart for the best offer for a tier's
/// collection.
pub fn find_targets(lines: &Vec<CartLine>, collection: &String) -> (result: Result<
    Verdict,
    EvalError,
>)
    ensures
        agrees(result, target_outcome(cart_view(lines@), collection@)),
{
    let ghost views = cart_view(lines@);
    let mut highest: u64 = 0;
    let mut best: Option<usize> = None;
    let mut i: usize = 0;
    while i < lines.len()
        invariant
            i <= lines.len(),
            views == cart_view(lines@),
            forall|j: int| 0 <= j < i ==> !blocks(#[trigger] views[j], collection@),
            match best {
                Some(b) => best_among(views, collection@, i as int, b as int) && offer(
                    views[b as int],
                    collection@,
                ) == Some(highest),
                None => highest == 0 && forall|j: int|
                    0 <= j < i ==> (#[trigger] offer(views[j], collection@) matches Some(rate)
                        ==> rate == 0),
            },
        decreases lines.len() - i,
    {
        assert(views[i as int] == lines@[i as int]@);
        match read_offer(&lines[i], collection) {
            LineOffer::Nothing => {},
            LineOffer::Blocked => {
                return Err(EvalError::MalformedSchedule);
            },
            LineOffer::Rate(rate) => {
                if rate > highest {
                    highest = rate;
                    best = Some(i);
                }
            },
        }
        i += 1;
    }
    match best {
        Some(b) => {
            proof {
                lemma_best_is_selected(views, collection@, b as int);
                assert(views[b as int] == lines@[b as int]@);
            }
            Ok(Verdict::single(make_discount(&lines[b], highest)))
        },
        None => {
            proof {
                lemma_no_offer_no_best(views, collection@);
            }
            Ok(Verdict::no_discount())
        },
    }
}

/// Evaluates a configuration on a cart.
pub fn run(lines: &Vec<CartLine>, config: &Payload<Configuration>) -> (result: Result<
    Verdict,
    EvalError,
>)
    ensures
        agrees(result, evaluate(cart_view(lines@), configuration_view(*config))),
{
    let configuration = match config {
        Payload::Absent => {
            return Ok(Verdict::no_discount());
        },
        Payload::Malformed => {
            return Err(EvalError::MalformedConfiguration);
        },
        Payload::Parsed(configuration) => configuration,
    };
    let aggregate = sum_excluding(lines, &configuration.collection_ids);
    proof {
        lemma_capped_value_selects_the_same(
            total_excluding(cart_view(lines@), configuration@.collection_ids),
            configuration@.mapping,
        );
    }
    match select(aggregate, &configuration.mapping) {
        Some(t) => find_targets(lines, &configuration.mapping[t].collection),
        None => Ok(Verdict::no_discount()),
    }
}

/// Where one of the first `n` lines offers a rate above zero, one of them
/// holds the best offer among the first `n`.
pub proof fn lemma_some_line_is_best(
    lines: Seq<CartLineView>,
    collection: Seq<char>,
    n: int,
    j: int,
)
    requires
        0 <= j < n <= lines.len(),
        offer(lines[j], collection) matches Some(rate) && rate > 0,
    ensures
        exists|k: int| best_among(lines, collection, n, k),
    decreases n,
{
    let last = n - 1;
    if exists|m: int|
        0 <= m < last && (#[trigger] offer(lines[m], collection) matches Some(rate) && rate > 0) {
        let m = choose|m: int|
            0 <= m < last && (#[trigger] offer(lines[m], collection) matches Some(rate) && rate
                > 0);
        lemma_some_line_is_best(lines, collection, last, m);
        let before = choose|k: int| best_among(lines, collection, last, k);
        if offer(lines[last], collection) matches Some(rate) && rate > offer(
            lines[before],
            collection,
        )->0 {
            assert(best_among(lines, collection, n, last));
        } else {
            assert(best_among(lines, collection, n, before));
        }
    } else {
        assert(j == last);
        assert forall|i: int| 0 <= i < last implies (#[trigger] offer(
            lines[i],
            collection,
        ) matches Some(other) ==> other < offer(lines[last], collection)->0) by {
            if offer(lines[i], collection) matches Some(other) && other > 0 {
                assert(0 <= i < last && (offer(lines[i], collection) matches Some(rate) && rate
                    > 0));
            }
        }
        assert(best_among(lines, collection, n, last));
    }
}

/// The best line offers a rate above zero, no line offers more, and it
/// comes before every other line that offers as much. Where there is no
/// best line, no line offers a rate above zero.
pub proof fn lemma_best_line_is_highest_and_first(lines: Seq<CartLineView>, collection: Seq<char>)
    ensures
        match best_line(lines, collection) {
            Some(k) => {
                &&& 0 <= k < lines.len()
                &&& offer(lines[k], collection) matches Some(rate) && rate > 0
                &&& forall|j: int|
                    0 <= j < lines.len() ==> (#[trigger] offer(lines[j], collection) matches Some(
                        other,
                    ) ==> other <= offer(lines[k], collection)->0)
                &&& forall|j: int|
                    0 <= j < lines.len() && #[trigger] offer(lines[j], collection) == offer(
                        lines[k],
                        collection,
                    ) ==> k <= j
            },
            None => forall|j: int|
                0 <= j < lines.len() ==> (#[trigger] offer(lines[j], collection) matches Some(
                    rate,
                ) ==> rate == 0),
        },
{
    match best_line(lines, collection) {
        Some(k) => {
            assert(is_best(lines, collection, k));
            assert forall|j: int|
                0 <= j < lines.len() && #[trigger] offer(lines[j], collection) == offer(
                    lines[k],
                    collection,
                ) implies k <= j by {
                if j < k {
                    assert(offer(lines[j], collection) matches Some(other) ==> other < offer(
                        lines[k],
                        collection,
                    )->0);
                }
            }
        },
        None => {
            assert forall|j: int| 0 <= j < lines.len() implies (#[trigger] offer(
                lines[j],
                collection,
            ) matches Some(rate) ==> rate == 0) by {
                if offer(lines[j], collection) matches Some(rate) && rate > 0 {
                    lemma_some_line_is_best(lines, collection, lines.len() as int, j);
                    let k = choose|k: int| best_among(lines, collection, lines.len() as int, k);
                    assert(is_best(lines, collection, k));
                }
            }
        },
    }
}

/// Where no line aborts the targeting stage and some line offers a rate
/// above zero, the single target of the discount is the variant of the
/// best line, limited to that line's quantity, at that line's rate.
pub proof fn lemma_target_is_the_best_line(lines: Seq<CartLineView>, collection: Seq<char>)
    requires
        !some_line_blocks(lines, collection),
        best_line(lines, collection) is Some,
    ensures
        ({
            let k = best_line(lines, collection)->0;
            let rate = offer(lines[k], collection)->0;
            &&& target_outcome(lines, collection) matches Ok(verdict)
            &&& verdict.discounts.len() == 1
            &&& verdict.discounts[0].rate == rate
            &&& verdict.discounts[0].message == rate_message(rate as nat)
            &&& verdict.discounts[0].targets == seq![
                TargetView::ProductVariant {
                    id: variant_id(lines[k]),
                    quantity: Some(lines[k].quantity),
                },
            ]
        }),
{
}

/// A cart whose value outside the excluded collections is below every
/// threshold gets no discount, whatever collections its products belong to
/// and whatever their schedules hold.
pub proof fn lemma_below_every_threshold_no_discount(
    lines: Seq<CartLineView>,
    configuration: ConfigurationView,
)
    requires
        forall|j: int|
            0 <= j < configuration.mapping.len() ==> (#[trigger] configuration.mapping[j]).threshold
                > total_excluding(lines, configuration.collection_ids),
    ensures
        evaluate(lines, ConfigurationPayloadView::Parsed(configuration)) == Ok::<
            VerdictView,
            EvalError,
        >(no_discount_view()),
{
    lemma_winning_tier_is_greatest_and_first(
        total_excluding(lines, configuration.collection_ids),
        configuration.mapping,
    );
}

/// The thresholds are inclusive: a cart whose value outside the excluded
/// collections equals the threshold of some tier goes on to the targeting
/// stage, for a tier with exactly that threshold.
pub proof fn lemma_threshold_is_inclusive(
    lines: Seq<CartLineView>,
    configuration: ConfigurationView,
    i: int,
)
    requires
        0 <= i < configuration.mapping.len(),
        configuration.mapping[i].threshold == total_excluding(
            lines,
            configuration.collection_ids,
        ),
    ensures
        ({
            let aggregate = total_excluding(lines, configuration.collection_ids);
            &&& winning_tier(aggregate, configuration.mapping) matches Some(w)
            &&& configuration.mapping[w].threshold == aggregate
            &&& evaluate(lines, ConfigurationPayloadView::Parsed(configuration))
                == target_outcome(lines, configuration.mapping[w].collection)
        }),
{
    crate::select::lemma_threshold_is_inclusive(
        total_excluding(lines, configuration.collection_ids),
        configuration.mapping,
        i,
    );
}

/// Evaluation is a function of the cart and the configuration: two
/// outcomes that are both results of evaluating the same cart under the
/// same configuration are equal.
pub proof fn lemma_evaluation_is_deterministic(
    lines: Seq<CartLineView>,
    config: ConfigurationPayloadView,
    first: Result<VerdictView, EvalError>,
    second: Result<VerdictView, EvalError>,
)
    requires
        first == evaluate(lines, config),
        second == evaluate(lines, config),
    ensures
        first == second,
{
}

} // verus!
