//! Subscription bookkeeping for a replicated SQLite store: which tables and
//! columns a subscribed query depends on, the registry of running
//! subscriptions, the event-loop configuration, and TLS material for the
//! cluster.
pub mod config;

pub use config::MatcherLoopConfig;
pub mod ast;
pub mod schema;
pub mod columns;
pub mod error;
pub mod text;
pub mod db;
pub mod candidates;
pub mod handle;
pub mod manager;
pub mod cert_params;
pub mod tls;
