//! Verified shopping-cart workflows and small utilities.
//!
//! The heart of the crate is a pricing-rule engine (`pricing`) that sums
//! additive price components over a cart, and a fulfillment batch
//! (`fulfillment`) that drives every paid cart through estimation,
//! persistence and notification in a fixed order.  Around them stand a
//! handful of small verified routines: digit addition, word counting,
//! padding, Roman-numeral parsing, substring extraction and deduplication.

pub mod cart;
pub mod christmas;
pub mod digits;
pub mod dedup;
pub mod fulfillment;
pub mod invoice_sending;
pub mod invoices;
pub mod padding;
pub mod poker;
pub mod pricing;
pub mod roman;
pub mod search;
pub mod substrings;
pub mod words;
