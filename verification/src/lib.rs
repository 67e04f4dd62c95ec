//! The execution core of a streaming query engine: the protocol by which the
//! nodes of a physical plan push batches and metadata upwards, and the filter,
//! a stateless operator written against that protocol.

pub mod columnar;
pub mod logical;
pub mod physical;
