//! The ingestion pipeline of a feed generator: messages of the repository stream are
//! decoded into commits, the records of a commit are resolved against its block archive
//! and extracted as typed operations, and the operations are indexed, with a cursor that
//! lets the subscription be taken up again after a failure.
//!
//! Nothing here waits or performs input or output. What has to be waited for is asked
//! of the caller: the machines of [`lifecycle`] and [`indexer`] say what is to be done
//! next and are told what came of it.

pub mod algos;
pub mod archive;
pub mod config;
pub mod feed;
pub mod frame;
pub mod framing;
pub mod indexer;
pub mod lifecycle;
pub mod records;
pub mod statements;
pub mod store;
pub mod streaming;
pub mod text;
