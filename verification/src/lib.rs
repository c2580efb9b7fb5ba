//! A plugin-based service runtime organised around a shared, typed,
//! observable blackboard.
//!
//! The crate holds the rules of the runtime as verified functions on plain
//! values: the capability tables that cross plugin boundaries, the
//! blackboard store with its subscriptions, the rendering of its schema, and
//! the loader's wiring and start order.

pub mod bindings;
pub mod blackboard;
pub mod capabilities;
pub mod components;
pub mod config;
pub mod data;
pub mod entries;
pub mod error;
pub mod helper;
pub mod laws;
pub mod loader;
pub mod rtlibrary;
pub mod schema;
pub mod store;
pub mod text;
pub mod webinterface;
pub mod wiring;
