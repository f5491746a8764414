//! Verified core of a stock trade tracker: transaction kinds and their
//! textual form, the order in which a ledger is replayed, and the
//! validation and bookkeeping decisions of the input form.
pub mod calendar;
pub mod form;
pub mod ledger;
pub mod models;
pub mod text;
