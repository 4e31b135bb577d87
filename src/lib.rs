//! Indexer and notifier for "PIP:2001" publish transactions: the decisions
//! of ingestion, verification, checkpointing, content checking and webhook
//! delivery, with the network and database left to the caller.
pub mod text;
pub mod url;
pub mod settings;
pub mod util;
pub mod crypto;
pub mod json;
pub mod protocol;
pub mod table;
pub mod store;
pub mod sync;
pub mod content;
pub mod notifier;
pub mod processor;
pub mod chain;
pub mod frontmatter;
pub mod blocks;
