//! The memory of a project: facts of authorized sources under immutable revisions, links to
//! snapshots of its repository, and bounded answers about both.
//!
//! Every record has a model, and every function states its result over the models of its arguments.
//! What other processes, the clock or a file decide comes in through traits that keep a log; a
//! function that asks them states its result over what they said.
use vstd::prelude::*;

pub mod budget;
pub mod content;
pub mod context;
pub mod cursor;
pub mod deadline;
pub mod diagnostics;
pub mod digest;
pub mod documents;
pub mod domain;
pub mod extractors;
pub mod federation;
pub mod index;
pub mod json;
pub mod kept;
pub mod laws;
pub mod ledger;
pub mod links;
pub mod manifest;
pub mod members;
pub mod order;
pub mod paging;
pub mod policy;
pub mod ports;
pub mod query;
pub mod reach;
pub mod record;
pub mod reindexing;
pub mod repository;
pub mod runtime;
pub mod scope;
pub mod search;
pub mod seeds;
pub mod service;
pub mod sort;
pub mod source;
pub mod status;
pub mod store;
pub mod text;
pub mod traversal;
pub mod value;
pub mod workspace;

verus! {

/// The version of the memory's records.
pub const MEMORY_MODEL_VERSION: u32 = 1;

/// The version of the contract between the index and its extractors.
pub const MEMORY_EXTRACTOR_CONTRACT_VERSION: u32 = 1;

/// The version of memory requests and answers.
pub const MEMORY_QUERY_WIRE_VERSION: u32 = 1;

/// The version of federated requests and answers.
pub const FEDERATION_WIRE_VERSION: u32 = 1;

}
