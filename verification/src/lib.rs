//! The service of one server of an object storage cluster.
//!
//! The service follows the configuration of the cluster. It keeps tables of servers, devices and
//! buckets, decides which devices this server starts, names and starts the Raft nodes of segments,
//! and clears away buckets that are taken out. Work that leaves the process (polling other
//! services, starting devices and nodes, deleting lumps) is asked for by steps, and its outcome is
//! handed back.
pub mod bucket;
pub mod device;
pub mod entity;
pub mod laws;
pub mod lump;
pub mod node;
pub mod numeral;
pub mod service;
