//! A bounded byte-chunk buffer between one reader and one writer.
//!
//! The crate holds the shared queue, the decisions that the reading and
//! the writing side take around it, and the reading of the command line.
//! The caller owns the streams, the lock and the threads: it performs each
//! action that a step asks for and hands the outcome back as a plain value.

pub mod config;
pub mod consumer;
pub mod pipe;
pub mod producer;
pub mod queue;
pub mod sink;
pub mod source;
