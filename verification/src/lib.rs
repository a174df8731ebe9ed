//! Watches a product catalogue page: pulls the product records out of a
//! fetched page, renders them as a sorted snapshot text, compares the
//! snapshot with the one accepted last, and decides with the operator whether
//! to keep the new one.
//!
//! Everything here is pure: the caller fetches the page, reads and writes the
//! snapshot file and reads the keyboard, and hands the results in.

pub mod chars;
pub mod confirmer;
pub mod differ;
pub mod document;
pub mod extractor;
pub mod numbers;
pub mod outside;
pub mod poll;
pub mod sorting;
pub mod store;
