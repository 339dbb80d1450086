//! Task orchestration and reconciliation engine for an anime download tracker.
//!
//! The library keeps a catalog of series, broadcast seasons, release
//! subgroups, torrent seed candidates and download tasks, and verifies the
//! rules that keep those records consistent: scraped batches are ingested
//! idempotently, a seed is turned into at most one download task, and the
//! progress view merges persisted tasks with live client status strictly.
//! All I/O (the web layer, the database, the scraper and the torrent client)
//! lives outside; callers hand the engine plain values and apply its results.

pub mod catalog;
pub mod ingest;
pub mod locator;
pub mod models;
pub mod orchestrate;
pub mod queries;
pub mod reconcile;
pub mod scraper;
pub mod text;
