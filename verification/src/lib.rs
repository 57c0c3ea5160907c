//! Snapshots a Google Sheet into a git repository, shows it as a web page, and announces the
//! snapshots on Nostr.
//!
//! The library holds what the tool decides and computes; fetching, git, relays and the web server
//! are left to the program around it.
//!
//! - [`text`], [`lowercase`], [`numeral`] and [`html`] are what the rest is written with.
//! - [`records`] reads CSV, [`sheet`] takes it apart, [`link`] finds links in its cells and
//!   [`page`] shows it.
//! - [`snapshot`] is what is recorded of a sheet.
//! - [`config`] and [`auth`] hold the settings and say who may ask for a sync.
//! - [`sync`] is a sync as a state machine, and [`sync_laws`] what holds of all its runs.
//! - [`announce`] is what is published.
//! - [`http`] and [`report`] are what is answered and printed.
pub mod announce;
pub mod auth;
pub mod config;
pub mod html;
pub mod http;
pub mod link;
pub mod lowercase;
pub mod numeral;
pub mod page;
pub mod records;
pub mod report;
pub mod sheet;
pub mod snapshot;
pub mod sync;
pub mod sync_laws;
pub mod text;
