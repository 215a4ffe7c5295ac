//! Read-through cache and incremental synchronizer for on-chain proposals and RFPs.
//!
//! The library holds the synchronization engine: the freshness gate and sync
//! watermark, the upstream feed protocol, the transaction dispatcher, the
//! snapshot reconcilers, the consistency maintainer between proposals and RFPs,
//! and the snapshot store they write to. Network and database I/O live outside.

pub mod contract;
pub mod cursor;
pub mod date;
pub mod dispatch;
pub mod feed;
pub mod laws;
pub mod links;
pub mod listing;
pub mod reconcile;
pub mod records;
pub mod responses;
pub mod rpc;
pub mod search;
pub mod store;
pub mod table;
pub mod text;
pub mod transaction;
