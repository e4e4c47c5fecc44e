//! Utilities.
pub mod laws;
pub mod loan_list;
