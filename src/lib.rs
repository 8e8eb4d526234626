//! Harvests an Apache-style autoindex page: parses its listing table into
//! typed records, selects the archives worth fetching, and plans how a
//! fetched archive is unpacked. Network and disk access live with the caller.

pub mod config;
pub mod html;
pub mod kmz;
pub mod listing;
pub mod pipeline;
pub mod record;
pub mod select;
