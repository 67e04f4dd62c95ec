//! What the planner knows of a node before any data flows.

use crate::columnar::share;
use arrow::datatypes::Schema;
use std::sync::Arc;
use vstd::prelude::*;

verus! {

/// The static description of a node's output. Every batch that the node
/// produces has this schema.
pub struct NodeMetadata {
    pub schema: Arc<Schema>,
}

impl Clone for NodeMetadata {
    fn clone(&self) -> (copy: Self)
        ensures
            copy == *self,
    {
        NodeMetadata { schema: share(&self.schema) }
    }
}

} // verus!
