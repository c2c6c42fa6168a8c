//! Extraction of module-import references from JavaScript and TypeScript
//! files: dialect selection by path, the records that a file's import nodes
//! yield, and the gathering of a batch's records under either delivery mode,
//! with the laws that tie these together.
use vstd::prelude::*;

pub mod batch;
pub mod dialect;
pub mod laws;
pub mod visitor;

pub use batch::{file_records, run_aggregate, Delivery, FileInput, FileOutcome};
pub use dialect::{dialect_for_path, Dialect};
pub use laws::{
    lemma_batch_concat, lemma_dynamic_literal_only, lemma_isolation, lemma_modes_agree,
    lemma_rerun_same_records, lemma_static_order,
};
pub use visitor::{extract, record_for, slice_source, ImportNode, ImportRecord, ImportResult};

verus! {

} // verus!
