//! A verified controller for a terminal session picker: a paginated,
//! searchable list fed by an asynchronous page source, with token-based
//! staleness detection, deduplication, and viewport bookkeeping.

pub mod text;
pub mod time;
pub mod rows;
pub mod picker;
pub mod laws;
pub mod observer;
pub mod overlay;
pub mod updates;
pub mod columns;
