//! A price watcher for products of a shopping aggregator.
//!
//! A sweep visits the configured products, compares the card and cash price
//! of each with the prices seen last time, and reports the products whose
//! prices changed in one chat message. This library holds what a sweep
//! decides and computes; fetching pages, talking to the chat and reading and
//! writing files are left to the program that uses it.

pub mod danawa;
pub mod price;
pub mod report;
pub mod settings;
pub mod sweep;
pub mod telegram;
pub mod text;
pub mod timestamp;
