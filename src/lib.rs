//! Bounded, deduplicated clipboard history: the store, its durable snapshot
//! framing, change detection for a polled clipboard, and configuration.
pub mod config;
pub mod engine;
pub mod entry;
pub mod history;
pub mod listener;
pub mod persistence;
