//! Host-side logic for fetching L1/L2 chain data and preparing the arguments of the
//! native host program: the block search by timestamp, the batching of header requests,
//! the selection of the earliest L1 head, the L2 output roots and the layout of the
//! host's data and executable directories.
//!
//! Network, file-system and environment access stay with the caller: every function here
//! works on plain values that the caller fetched, and answers with plain values.

pub mod batches;
pub mod blocks;
pub mod config;
pub mod host_args;
pub mod output;
pub mod search;
pub mod text;
