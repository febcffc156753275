//! Reconciliation of the per-entity writer configuration against the primary
//! entity table.
//!
//! `ids` holds the identifier types and `codec` the composite agent value
//! with its encoding and decoding. `upsert` holds the pending writes, the
//! batch and the parallel arrays it is sent as; `rows` and `list` decode what
//! the store returns; `sql` holds the text of the statements. `table` states
//! what the bulk statement does to the configuration table and proves what
//! follows from it; `store` carries the statements out in memory, and
//! `pipeline` runs one reconciliation pass on such a store.

pub mod codec;
pub mod ids;
pub mod list;
pub mod pipeline;
pub mod rows;
pub mod sql;
pub mod store;
pub mod table;
pub mod upsert;
