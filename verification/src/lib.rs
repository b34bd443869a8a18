//! Relay core of a federated chat room: messages posted in any channel named
//! `globalchat-rs` are fanned out, through a webhook per channel, to every other
//! channel of that name.
//!
//! The crate holds the decisions of the relay and proves them. Network and
//! database work is left to a driver, which performs the [`engine::Action`]s that
//! the relay asks for and reports what came of them as [`engine::Event`]s.

pub mod model;

pub mod text;

pub mod identity;

pub mod directory;

pub mod webhook;

pub mod engine;

pub mod laws;

pub mod cache;

pub mod store;

