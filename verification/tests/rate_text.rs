use cart_discounts::rate_text::{digit_text, message_for, push_decimal, push_rate};
use cart_discounts::verdict::{ApplicationStrategy, Discount, Target, Verdict};

fn decimal(n: u64) -> String {
    let mut out = String::new();
    push_decimal(&mut out, n);
    out
}

fn rate(r: u64) -> String {
    let mut out = String::new();
    push_rate(&mut out, r);
    out
}

#[test]
fn a_digit_is_one_character() {
    let all: Vec<&str> = (0..10).map(digit_text).collect();
    assert_eq!(all, vec!["0", "1", "2", "3", "4", "5", "6", "7", "8", "9"]);
}

#[test]
fn a_number_is_written_in_decimal_without_leading_zeros() {
    assert_eq!(decimal(0), "0");
    assert_eq!(decimal(7), "7");
    assert_eq!(decimal(10), "10");
    assert_eq!(decimal(1205), "1205");
    assert_eq!(decimal(9007199254740993), "9007199254740993");
    assert_eq!(decimal(u64::MAX), "18446744073709551615");
}

#[test]
fn a_number_is_appended_to_what_is_there() {
    let mut out = "n = ".to_string();
    push_decimal(&mut out, 42);
    assert_eq!(out, "n = 42");
    push_rate(&mut out, 50);
    assert_eq!(out, "n = 420.5");
}

#[test]
fn a_rate_is_written_with_as_many_decimals_as_it_needs() {
    assert_eq!(rate(0), "0");
    assert_eq!(rate(1), "0.01");
    assert_eq!(rate(5), "0.05");
    assert_eq!(rate(10), "0.1");
    assert_eq!(rate(50), "0.5");
    assert_eq!(rate(99), "0.99");
    assert_eq!(rate(100), "1");
    assert_eq!(rate(1000), "10");
    assert_eq!(rate(1250), "12.5");
    assert_eq!(rate(1205), "12.05");
    assert_eq!(rate(1500), "15");
    assert_eq!(rate(10000), "100");
    assert_eq!(rate(u64::MAX), "184467440737095516.15");
}

#[test]
fn a_message_is_the_rate_and_percent_off() {
    assert_eq!(message_for(1000), "10% off");
    assert_eq!(message_for(1250), "12.5% off");
    assert_eq!(message_for(1), "0.01% off");
    assert_eq!(message_for(0), "0% off");
}

#[test]
fn a_verdict_holds_no_discount_or_exactly_one() {
    let none = Verdict::no_discount();
    assert_eq!(none, Verdict { discounts: vec![], strategy: ApplicationStrategy::First });
    let discount = Discount {
        message: "m".to_string(),
        targets: vec![Target::CartLine { id: "l".to_string(), quantity: None }],
        rate: 1,
    };
    let one = Verdict::single(discount.clone());
    assert_eq!(one, Verdict { discounts: vec![discount], strategy: ApplicationStrategy::First });
}
