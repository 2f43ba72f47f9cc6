//! Fetching earthquake events from a catalogue service: the event model and
//! wire schema, the data source interface, single-range fetches, backfills
//! over split time ranges, periodic polling, and the hand-over to clustering
//! and storage.

pub mod backfill;
pub mod clustering;
pub mod earthquake_event;
pub mod fetch;
pub mod fetch_sync;
pub mod statistics;
pub mod store;
pub mod text;
pub mod time_range;
pub mod utils;
