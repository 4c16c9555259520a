//! Live queue service core: accounts, queues, entries and their rules.
pub mod text;
pub mod model;
pub mod clock;
pub mod ids;
pub mod password;
pub mod utils;
pub mod store;
pub mod views;
pub mod accounts;
pub mod queue;
pub mod order;
pub mod manage;
pub mod schedule;
pub mod entries;
pub mod render;
pub mod dashboard;
pub mod snapshot;
pub mod laws;
pub mod protocol;
pub mod sso;
pub mod client;
pub mod route;
pub mod payload;
