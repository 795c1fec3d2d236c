//! The distributed query execution core of a columnar OLAP engine: it turns
//! a physical plan over materialized indexes into a two-tier plan, with an
//! exchange shipping partition-pinned work to workers, expands index
//! snapshots into per-partition file scans, and materializes the returned
//! columnar batches into row-oriented results.

pub mod cartesian;
pub mod cluster_send;
pub mod codec;
pub mod columnar;
pub mod dataframe;
pub mod decimal;
pub mod executor;
pub mod laws;
pub mod metastore;
pub mod plan;
pub mod table;
pub mod types;
