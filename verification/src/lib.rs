//! Connection graphs between extensions.
//!
//! A graph wires independently deployable processing units, the extensions,
//! together through typed message channels: commands, data, audio frames and
//! video frames. This crate holds the static topology and the operations on
//! it; every executable function is verified against a contract over the
//! mathematical views of its arguments (`Seq<char>` for text, view structs
//! for the entities of a graph).
//!
//! - [`kinds`], [`node`], [`connection`], [`conversion`], [`graph`]: the
//!   entities of a graph and their validation.
//! - [`builder`]: adding a connection, transactionally.
//! - [`selector`]: selectors and their expansion into the extensions they
//!   stand for.
//! - [`subgraph`]: tracing an exposed message through nested subgraphs.
//! - [`proxy`]: synthesis of the boundary proxy from the exposed messages.
//! - [`location`], [`path`]: resolution of import references and lexical
//!   path handling.
//! - [`urls`]: the boundary to the `url` crate; [`text`]: text as sequences
//!   of characters; [`error`]: the failures of validation and editing.
//!
//! Nothing here performs input or output. Where an operation depends on an
//! outside collaborator, a schema validator or a loader of documents, it
//! takes what the collaborator said as an argument.

pub mod builder;
pub mod connection;
pub mod conversion;
pub mod error;
pub mod graph;
pub mod kinds;
pub mod location;
pub mod node;
pub mod path;
pub mod proxy;
pub mod selector;
pub mod subgraph;
pub mod text;
pub mod urls;
