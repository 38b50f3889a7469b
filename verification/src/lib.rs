//! Subscription bookkeeping: billing calendar arithmetic, renewal planning,
//! token checks, request throttling and the request-level rules of the
//! subscription service, each stated and proved with Verus.

pub mod api;
pub mod auth;
pub mod config;
pub mod cron;
pub mod date;
pub mod db;
pub mod models;
pub mod ratelimit;
pub mod stats;
pub mod text;
