//! A discount-eligibility and selection engine for shopping carts.
//!
//! An evaluation reads a cart and a small configuration and decides whether
//! a percentage discount applies, to which targets, and at which rate. Two
//! engines share the same three stages (aggregate, select, target):
//!
//! * [`coupon_discounts`] evaluates one fixed rule: a target collection, a
//!   flat rate and a minimum cart value.
//! * [`product_discount`] evaluates a list of threshold tiers and applies the
//!   best rate that the products themselves advertise for the winning tier.
//!
//! Money is held in hundredths of the currency unit and rates in hundredths
//! of a percent, both as unsigned integers. Every public function carries a
//! contract over the views defined in [`cart`] and [`verdict`].

pub mod aggregate;
pub mod cart;
pub mod coupon_discounts;
pub mod product_discount;
pub mod rate_text;
pub mod select;
pub mod verdict;
