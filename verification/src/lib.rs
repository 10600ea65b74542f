//! The logic of Iris, a media server that finds, fetches and streams films and
//! series: every decision that the server takes, as functions on plain values
//! with verified contracts.
//!
//! The server around this crate talks to the database, the torrent engine, the
//! media tools and the network. It hands what it has read to a function here
//! and carries out what comes back.
//!
//! - Accounts: [`auth`], [`bootstrap`], [`devices`], [`extract`],
//!   [`invitation`], [`jwt`], [`me`], [`password`], [`preferences`], [`user`]
//!   and [`admin`].
//! - Finding releases: [`search`], [`search_page`], [`ranking`], [`language`],
//!   [`grab`] and [`grab_flow`], which picks and fetches an episode.
//! - The library: [`library`], [`follows`], [`torrents`], [`seed_stats`].
//! - Playing: [`streaming`], [`caps`], [`remux`], [`live_tv`].
//! - Metadata: [`metadata`], [`tmdb`], [`tmdb_resolve`], [`tmdb_backfill`],
//!   [`watched_backfill`].
//! - Shared ground: [`config`], [`error`], [`api_error`], [`cache`], [`clock`],
//!   [`ids`], [`order`], [`path`], [`text`], [`text_map`], [`episode_map`].
//!
//! Moments are milliseconds since the Unix epoch. Identifiers are the 128 bits
//! of a UUID. A floating-point number that is only passed on is held as its
//! bits.
//!
//! What is said of other crates and of the standard library, and believed
//! without proof, stands in [`text`], [`clock`], [`ids`], [`password`],
//! [`invitation`], [`jwt`] and [`devices`], next to the calls.

pub mod admin;
pub mod api_error;
pub mod auth;
pub mod bootstrap;
pub mod cache;
pub mod caps;
pub mod clock;
pub mod config;
pub mod devices;
pub mod episode_map;
pub mod error;
pub mod extract;
pub mod follows;
pub mod grab;
pub mod grab_flow;
pub mod ids;
pub mod invitation;
pub mod jwt;
pub mod language;
pub mod library;
pub mod live_tv;
pub mod me;
pub mod metadata;
pub mod order;
pub mod password;
pub mod path;
pub mod preferences;
pub mod ranking;
pub mod remux;
pub mod search;
pub mod search_page;
pub mod seed_stats;
pub mod streaming;
pub mod text;
pub mod text_map;
pub mod tmdb;
pub mod tmdb_backfill;
pub mod tmdb_resolve;
pub mod torrents;
pub mod user;
pub mod watched_backfill;
