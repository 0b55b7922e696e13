//! Retrieval of web pages and their reduction to readable text.
//!
//! The library finds page addresses in free text ([`search`]), decides how
//! a batch of pages is retrieved with bounded concurrency ([`batch`]) and how
//! a single retrieval reacts to what the browser reports ([`fetch`],
//! [`session`]), and reduces the rendered HTML of a page to an ordered
//! sequence of distinct text blocks ([`extract`]). It does no browser work
//! and no I/O itself: a driver carries out the actions that the state
//! machines ask for.

pub mod address;
pub mod batch;
pub mod cli;
pub mod extract;
pub mod fetch;
pub mod rag;
pub mod search;
pub mod session;
pub mod text;
