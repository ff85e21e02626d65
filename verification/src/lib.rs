//! Relay of chat messages between groups of an instant-messaging network
//! that belong to the same named cluster, with an admin token and one-time
//! passwords gating the administrative commands.
//!
//! - [`events`]: the inbound protocol events and their classification;
//! - [`parser`]: free-text commands into typed operations;
//! - [`auth`]: the admin token, the live one-time passwords, and the two
//!   credential gates;
//! - [`db`]: the cluster-membership store and its forward-target query;
//! - [`dispatch`]: the chain that routes one event through parser, gates and
//!   handlers into a list of actions for the caller to perform;
//! - [`message`]: which message content a forwarded copy carries;
//! - [`config`]: the process configuration.

pub mod auth;
pub mod config;
pub mod db;
pub mod dispatch;
pub mod events;
pub mod message;
pub mod parser;
pub mod text;
