//! Wishlist monitoring: book records taken from wishlist markup, and the
//! price changes and discounts between two snapshots of them.

pub mod book;
pub mod config;
pub mod diff;
pub mod extract;
pub mod markup;
pub mod report;
pub mod run;
pub mod text;
