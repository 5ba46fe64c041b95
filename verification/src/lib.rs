//! Ingestion-and-fan-out pipeline for a high-rate UDP stream of blockchain
//! broadcast fragments ("shreds").
//!
//! The crate holds the verified core of the pipeline: packet capture at the
//! socket boundary, the reconstruction adapter that serializes access to the
//! decoding stage, bounded backpressure channels, the fan-out router used in
//! the replicated topology, the signature sink with its benchmark log, and the
//! diagnostic capture mode with its JSON capture-file encoding. The byte-level
//! shred-to-entry reconstruction itself, the detection strategies, and all
//! socket, timer and task plumbing are external collaborators and live outside
//! this crate.

pub mod adapter;
pub mod capture;
pub mod channel;
pub mod codec;
pub mod decode;
pub mod packet;
pub mod router;
pub mod sink;
pub mod topology;
