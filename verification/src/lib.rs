//! Issuance of unique, indivisible assets on a ledger of records.
pub mod address;
pub mod error;
pub mod issuance;
pub mod laws;
pub mod ledger;
pub mod records;
pub mod state;
pub mod table;
