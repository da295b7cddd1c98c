//! The per-shard execution record: read-only counters and event lists a
//! simulator produces and the chips consume.

use crate::program::Block;
use crate::shape::{fixed_log2_of, RecursionShape};
use vstd::prelude::*;

verus! {

/// One variable-memory event: the block a hint wrote.
#[derive(Clone, Copy, Debug)]
pub struct MemEvent {
    pub inner: Block,
}

/// The counters and events of one shard. Chips only read it; the
/// constant-memory chip sizes its runtime table from `mem_const_count`
/// alone.
pub struct ExecutionRecord {
    pub mem_const_count: usize,
    pub mem_var_events: Vec<MemEvent>,
    pub shape: Option<RecursionShape>,
}

impl Default for ExecutionRecord {
    /// An empty shard: no events, no counters, no fixed shape.
    fn default() -> (r: ExecutionRecord)
        ensures
            r.mem_const_count == 0,
            r.mem_var_events@.len() == 0,
            r.shape is None,
    {
        ExecutionRecord { mem_const_count: 0, mem_var_events: Vec::new(), shape: None }
    }
}

impl ExecutionRecord {
    /// The log2 row count the record's shape fixes for the named chip.
    pub fn fixed_log2_rows(&self, chip_name: &str) -> (r: Option<usize>)
        ensures
            r == fixed_log2_of(self.shape, chip_name@),
    {
        match &self.shape {
            Option::Some(s) => s.get(chip_name),
            Option::None => Option::None,
        }
    }
}

} // verus!
