//! An interactive filter-and-select core: a catalog of items narrowed by
//! live case-insensitive prefix search, navigated with a wrap-around cursor,
//! under a browse/search mode state machine.

pub mod app;
pub mod filter;
pub mod list;
