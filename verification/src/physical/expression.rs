//! Value expressions: what an operator computes of each row.

use crate::columnar::column_viewed;
use crate::columnar::Batch;
use crate::columnar::BatchView;
use crate::columnar::Column;
use crate::columnar::ColumnView;
use crate::physical::physical::ExecError;
use crate::physical::physical::ExecutionContext;
use vstd::prelude::*;

verus! {

/// An expression that is evaluated against a whole batch and gives one column,
/// with a slot for each row.
pub trait Expression {
    /// Whether evaluating against `batch` under `ctx` may give `value`. An
    /// implementation that states nothing allows everything.
    open spec fn evaluates(
        &self,
        ctx: ExecutionContext,
        batch: BatchView,
        value: Result<ColumnView, ExecError>,
    ) -> bool {
        true
    }

    fn evaluate(&self, ctx: &ExecutionContext, batch: &Batch) -> (value: Result<Column, ExecError>)
        ensures
            self.evaluates(*ctx, batch@, column_viewed(value)),
    ;
}

} // verus!
