//! Ingestion pipeline for categorical admission records: decoding delimited
//! byte records into strict categorical types, recidivist deduplication,
//! validity filtering, frequency aggregation, one-hot encoding, transposed
//! bit-matrix assembly, and matrix persistence with a proved round trip.

pub mod distribution;
pub mod itemset;
pub mod matrix;
pub mod mining;
pub mod options;
pub mod persist;
pub mod pipeline;
pub mod record;
pub mod reducer;
pub mod schema;
