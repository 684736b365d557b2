//! Codec between an engine-internal columnar batch representation and a
//! cross-process columnar interchange format.
//!
//! The library converts batches of typed columns in both directions:
//! an outbound encoder renders internal arrays into interchange columns
//! (applying coercive casts when a requested target schema differs from the
//! naturally derived one), and an inbound decoder reconstructs internal
//! arrays from interchange columns, dispatching on extension tags for types
//! that have no native interchange representation (decimals and JSON carried
//! as tagged text).

pub mod array;
pub mod cast;
pub mod catalog;
pub mod compact;
pub mod decimal;
pub mod decode;
pub mod encode;
pub mod error;
pub mod interchange;
pub mod jsonb;
pub mod laws;
pub mod logical;
pub mod mapper;
pub mod redis_sink;
pub mod scalar;
pub mod strutil;
