use cart_discounts::aggregate::sum_cart;
use cart_discounts::cart::{CartLine, CollectionMembership, Merchandise, Payload, Product, ProductVariant};
use cart_discounts::coupon_discounts::{find_targets, is_eligible, run, FixedRule};
use cart_discounts::verdict::{ApplicationStrategy, Discount, Target, Verdict};

const TARGET_COLLECTION: &str = "gid://shopify/Collection/496241049921";
const DISCOUNT_PERCENTAGE: u64 = 15;

/// An amount of money, or a rate in percent, in hundredths.
fn hundredths(whole: u64, fraction: u64) -> u64 {
    whole * 100 + fraction
}

fn membership(collection_id: &str, is_member: bool) -> CollectionMembership {
    CollectionMembership { collection_id: collection_id.to_string(), is_member }
}

fn variant_line(
    id: &str,
    quantity: u64,
    unit_cost: u64,
    variant_id: &str,
    in_collections: Vec<CollectionMembership>,
) -> CartLine {
    CartLine {
        id: id.to_string(),
        quantity,
        unit_cost,
        merchandise: Merchandise::ProductVariant(ProductVariant {
            id: variant_id.to_string(),
            product: Product { in_collections, schedule: Payload::Absent },
        }),
    }
}

fn other_line(id: &str, quantity: u64, unit_cost: u64) -> CartLine {
    CartLine { id: id.to_string(), quantity, unit_cost, merchandise: Merchandise::Other }
}

fn no_discount() -> Verdict {
    Verdict { discounts: vec![], strategy: ApplicationStrategy::First }
}

fn line_target(id: &str) -> Target {
    Target::CartLine { id: id.to_string(), quantity: None }
}

fn standard_discount(targets: Vec<Target>) -> Verdict {
    Verdict {
        discounts: vec![Discount {
            message: "15% discount applied to eligible collection items.".to_string(),
            targets,
            rate: hundredths(DISCOUNT_PERCENTAGE, 0),
        }],
        strategy: ApplicationStrategy::First,
    }
}

#[test]
fn test_empty_cart() {
    let lines: Vec<CartLine> = vec![];
    let result = run(&lines, &FixedRule::standard());
    let expected = Verdict { discounts: vec![], strategy: ApplicationStrategy::First };
    assert_eq!(result, expected);
}

#[test]
fn test_cart_below_threshold() {
    let lines = vec![variant_line(
        "gid://shopify/CartLine/0",
        1,
        hundredths(100, 0),
        "gid://shopify/ProductVariant/111",
        vec![membership("gid://shopify/Collection/496241049921", true)],
    )];
    // Total value = 100 < 150.
    let result = run(&lines, &FixedRule::standard());
    let expected = Verdict { discounts: vec![], strategy: ApplicationStrategy::First };
    assert_eq!(result, expected);
}

#[test]
fn test_cart_with_eligible_product() {
    let lines = vec![
        variant_line(
            "gid://shopify/CartLine/0",
            2,
            hundredths(100, 0),
            "gid://shopify/ProductVariant/111",
            vec![membership("gid://shopify/Collection/496241049921", true)],
        ),
        variant_line(
            "gid://shopify/CartLine/1",
            1,
            hundredths(50, 0),
            "gid://shopify/ProductVariant/222",
            vec![membership("gid://shopify/Collection/NOTELIGIBLE", true)],
        ),
    ];
    // Total cart value = (2 * 100) + (1 * 50) = 250, which exceeds the threshold.
    // Only the first cart line qualifies.
    let result = run(&lines, &FixedRule::standard());
    let expected = Verdict {
        discounts: vec![Discount {
            message: "15% discount applied to eligible collection items.".to_string(),
            targets: vec![Target::CartLine {
                id: "gid://shopify/CartLine/0".to_string(),
                quantity: None,
            }],
            rate: hundredths(DISCOUNT_PERCENTAGE, 0),
        }],
        strategy: ApplicationStrategy::First,
    };
    assert_eq!(result, expected);
}

#[test]
fn test_cart_with_no_eligible_products() {
    let lines = vec![variant_line(
        "gid://shopify/CartLine/0",
        2,
        hundredths(100, 0),
        "gid://shopify/ProductVariant/111",
        vec![membership("gid://shopify/Collection/NOTELIGIBLE", true)],
    )];
    // Total cart value = 200 (above threshold), but no product is in the target collection.
    let result = run(&lines, &FixedRule::standard());
    let expected = Verdict { discounts: vec![], strategy: ApplicationStrategy::First };
    assert_eq!(result, expected);
}

#[test]
fn standard_rule_holds_the_shipped_constants() {
    let rule = FixedRule::standard();
    assert_eq!(rule.target_collection, TARGET_COLLECTION);
    assert_eq!(rule.rate, 1500);
    assert_eq!(rule.threshold, 15000);
    assert_eq!(rule.message, "15% discount applied to eligible collection items.");
}

#[test]
fn cart_total_is_the_sum_of_cost_times_quantity() {
    let lines = vec![
        variant_line("l0", 2, hundredths(100, 0), "v0", vec![]),
        other_line("l1", 3, hundredths(19, 99)),
        variant_line("l2", 0, hundredths(500, 0), "v2", vec![]),
    ];
    assert_eq!(sum_cart(&lines), 20000 + 5997);
    assert_eq!(sum_cart(&vec![]), 0);
}

#[test]
fn cart_total_is_capped_at_the_largest_value() {
    let lines = vec![other_line("l0", 2, u64::MAX), other_line("l1", 1, 5)];
    assert_eq!(sum_cart(&lines), u64::MAX);
    let near = vec![other_line("l0", 1, u64::MAX - 1), other_line("l1", 1, 5)];
    assert_eq!(sum_cart(&near), u64::MAX);
}

#[test]
fn a_cart_beyond_the_largest_value_still_clears_the_threshold() {
    let lines = vec![
        variant_line("l0", 3, u64::MAX, "v0", vec![membership(TARGET_COLLECTION, true)]),
        other_line("l1", u64::MAX, u64::MAX),
    ];
    let rule = FixedRule { threshold: u64::MAX, ..FixedRule::standard() };
    assert_eq!(run(&lines, &rule), standard_discount(vec![line_target("l0")]));
}

#[test]
fn lines_without_a_variant_count_towards_the_total() {
    let lines = vec![
        variant_line("l0", 1, hundredths(10, 0), "v0", vec![membership(TARGET_COLLECTION, true)]),
        other_line("l1", 1, hundredths(140, 0)),
    ];
    assert_eq!(run(&lines, &FixedRule::standard()), standard_discount(vec![line_target("l0")]));
}

#[test]
fn lines_without_a_variant_are_never_targets() {
    let lines = vec![other_line("l0", 1, hundredths(150, 0))];
    assert!(!is_eligible(&lines[0], &TARGET_COLLECTION.to_string()));
    assert_eq!(run(&lines, &FixedRule::standard()), no_discount());
}

#[test]
fn below_the_threshold_membership_makes_no_difference() {
    let member = vec![variant_line(
        "l0",
        1,
        hundredths(149, 99),
        "v0",
        vec![membership(TARGET_COLLECTION, true)],
    )];
    let stranger = vec![variant_line("l0", 1, hundredths(149, 99), "v0", vec![])];
    assert_eq!(run(&member, &FixedRule::standard()), no_discount());
    assert_eq!(run(&stranger, &FixedRule::standard()), no_discount());
}

#[test]
fn a_total_equal_to_the_threshold_qualifies() {
    let lines = vec![variant_line(
        "l0",
        3,
        hundredths(50, 0),
        "v0",
        vec![membership(TARGET_COLLECTION, true)],
    )];
    assert_eq!(sum_cart(&lines), FixedRule::standard().threshold);
    assert_eq!(run(&lines, &FixedRule::standard()), standard_discount(vec![line_target("l0")]));
}

#[test]
fn a_record_with_the_flag_unset_makes_no_target() {
    let lines = vec![
        variant_line("l0", 1, hundredths(100, 0), "v0", vec![membership(TARGET_COLLECTION, false)]),
        variant_line("l1", 1, hundredths(100, 0), "v1", vec![membership(TARGET_COLLECTION, true)]),
        variant_line(
            "l2",
            1,
            hundredths(100, 0),
            "v2",
            vec![membership("gid://shopify/Collection/1", true), membership(TARGET_COLLECTION, false)],
        ),
    ];
    let collection = TARGET_COLLECTION.to_string();
    assert!(!is_eligible(&lines[0], &collection));
    assert!(is_eligible(&lines[1], &collection));
    assert!(!is_eligible(&lines[2], &collection));
    assert_eq!(run(&lines, &FixedRule::standard()), standard_discount(vec![line_target("l1")]));
}

#[test]
fn one_record_with_the_flag_set_is_enough() {
    let line = variant_line(
        "l0",
        1,
        hundredths(200, 0),
        "v0",
        vec![membership(TARGET_COLLECTION, false), membership(TARGET_COLLECTION, true)],
    );
    assert!(is_eligible(&line, &TARGET_COLLECTION.to_string()));
    assert_eq!(run(&vec![line], &FixedRule::standard()), standard_discount(vec![line_target("l0")]));
}

#[test]
fn removing_a_line_that_is_not_eligible_leaves_the_targets() {
    let collection = TARGET_COLLECTION.to_string();
    let with = vec![
        variant_line("l0", 1, 1, "v0", vec![membership(TARGET_COLLECTION, true)]),
        variant_line("l1", 1, 1, "v1", vec![membership(TARGET_COLLECTION, false)]),
        variant_line("l2", 1, 1, "v2", vec![membership(TARGET_COLLECTION, true)]),
    ];
    let without = vec![with[0].clone(), with[2].clone()];
    assert_eq!(find_targets(&with, &collection), find_targets(&without, &collection));
    assert_eq!(find_targets(&with, &collection), vec![line_target("l0"), line_target("l2")]);
}

#[test]
fn every_eligible_line_is_a_target_in_cart_order() {
    let lines = vec![
        variant_line("b", 1, hundredths(60, 0), "v0", vec![membership(TARGET_COLLECTION, true)]),
        variant_line("a", 1, hundredths(60, 0), "v1", vec![membership(TARGET_COLLECTION, true)]),
        variant_line("b", 1, hundredths(60, 0), "v2", vec![membership(TARGET_COLLECTION, true)]),
    ];
    assert_eq!(
        run(&lines, &FixedRule::standard()),
        standard_discount(vec![line_target("b"), line_target("a"), line_target("b")])
    );
}

#[test]
fn the_rule_is_what_the_caller_configures() {
    let rule = FixedRule {
        target_collection: "summer".to_string(),
        rate: hundredths(7, 50),
        threshold: hundredths(20, 0),
        message: "Summer sale".to_string(),
    };
    let lines = vec![
        variant_line("l0", 1, hundredths(20, 0), "v0", vec![membership("summer", true)]),
        variant_line("l1", 1, 0, "v1", vec![membership(TARGET_COLLECTION, true)]),
    ];
    let expected = Verdict {
        discounts: vec![Discount {
            message: "Summer sale".to_string(),
            targets: vec![line_target("l0")],
            rate: 750,
        }],
        strategy: ApplicationStrategy::First,
    };
    assert_eq!(run(&lines, &rule), expected);
}

#[test]
fn evaluating_twice_gives_the_same_verdict() {
    let lines = vec![
        variant_line("l0", 2, hundredths(100, 0), "v0", vec![membership(TARGET_COLLECTION, true)]),
        other_line("l1", 1, hundredths(1, 0)),
    ];
    let rule = FixedRule::standard();
    let first = run(&lines, &rule);
    let second = run(&lines, &rule);
    assert_eq!(first, second);
    assert_eq!(format!("{:?}", first), format!("{:?}", second));
}
