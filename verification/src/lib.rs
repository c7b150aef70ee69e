//! A small purchase-aggregation library.
//!
//! A catalog of products and a log of purchases arrive as lines of text.
//! The store keeps the products, the purchases with their carts, and three
//! derived indexes (per-product purchase totals, per-category purchase
//! totals, and a by-label product index), and renders textual reports
//! from them.

pub mod laws;
pub mod manager;
pub mod parse;
pub mod products;
pub mod purchases;
pub mod reports;
pub mod text;
