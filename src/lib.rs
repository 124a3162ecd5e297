//! Archive of a podcast account: the login outcome, the extraction of feeds and
//! episodes from an extended OPML export, and the rows written to a two-table store.

pub mod text;
pub mod auth;
pub mod model;
pub mod xml;
pub mod extract;
pub mod store;
