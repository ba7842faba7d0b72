//! # A2A (Agent-to-Agent) protocol
//!
//! A minimal subset of the A2A protocol, so that two agents can talk to each other over
//! HTTP and JSON-RPC 2.0.
//!
//! The serving side:
//!
//! - [`card`]: the agent card at `/.well-known/agent.json`
//! - [`rpc`]: the JSON-RPC endpoint at `/a2a/v1/rpc` with the methods `message/send` and
//!   `tasks/get`, and polling at `/a2a/v1/tasks/{id}`
//! - [`auth`]: bearer authentication
//! - [`tasks`]: the bounded task store
//! - [`message`]: the text of an incoming message
//!
//! The calling side:
//!
//! - [`delegate`]: the tool that delegates a task to a registered peer
//! - [`endpoint`]: which endpoints are local or private
//!
//! [`exchange`] states what the two sides can rely on when they talk to each other. The
//! library makes no connection itself: it decides what to send and what to answer, and
//! takes what came back as a value.

pub mod auth;
pub mod card;
pub mod clock;
pub mod config;
pub mod delegate;
pub mod endpoint;
pub mod exchange;
pub mod ids;
pub mod json;
pub mod message;
pub mod rpc;
pub mod tasks;
pub mod text;
pub mod web;
