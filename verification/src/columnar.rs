//! The columnar batch model: Arrow's record batches and arrays, as far as the
//! operators need them.
//!
//! Arrow's types are opaque to the verifier. What they hold is named by the
//! uninterpreted functions below, and the few Arrow functions that the operators
//! call are wrapped here, each with a contract that is taken on trust.

use arrow::array::Array;
use arrow::array::ArrayRef;
use arrow::array::BooleanArray;
use arrow::compute::kernels::filter::filter;
use arrow::datatypes::DataType;
use arrow::datatypes::Schema;
use arrow::error::ArrowError;
use arrow::record_batch::RecordBatch;
use std::sync::Arc;
use vstd::prelude::*;

verus! {

/// `arrow::datatypes::Schema`: the names and types of a batch's columns.
#[verifier::external_type_specification]
#[verifier::external_body]
pub struct ExSchema(Schema);

/// `arrow::datatypes::DataType`: the type of a column's values.
#[verifier::external_type_specification]
#[verifier::external_body]
pub struct ExDataType(DataType);

/// `arrow::error::ArrowError`: what an Arrow function reports when it refuses.
#[verifier::external_type_specification]
#[verifier::external_body]
pub struct ExArrowError(ArrowError);

/// `arrow::array::BooleanArray`: a column of nullable booleans.
#[verifier::external_type_specification]
#[verifier::external_body]
pub struct ExBooleanArray(BooleanArray);

/// What one slot of a column holds, as Arrow stores it: a null, or a value of the
/// column's type. The contracts never look inside a cell; they only say which
/// cell went where.
pub struct Cell {
    pub code: int,
}

/// A column: an Arrow array of any type, shared by reference.
#[verifier::external_body]
pub struct Column {
    pub array: ArrayRef,
}

/// A batch: an Arrow `RecordBatch`, that is a schema and equally long columns.
#[verifier::external_body]
pub struct Batch {
    pub record: RecordBatch,
}

/// The type of a column's values.
pub uninterp spec fn column_type(column: Column) -> DataType;

/// The cells of a column, first slot first.
pub uninterp spec fn column_cells(column: Column) -> Seq<Cell>;

/// The slots of a column read as booleans, `None` standing for a null; no
/// sequence at all where the column is not a `BooleanArray`.
pub uninterp spec fn column_booleans(column: Column) -> Option<Seq<Option<bool>>>;

/// The slots of a boolean array, `None` standing for a null.
pub uninterp spec fn mask_bits(mask: BooleanArray) -> Seq<Option<bool>>;

/// The columns of a batch, in schema order.
pub uninterp spec fn batch_columns(batch: Batch) -> Seq<Column>;

/// The schema of a batch.
pub uninterp spec fn batch_schema(batch: Batch) -> Schema;

/// The positions of a mask that are set: neither unset nor null. In rising order.
pub open spec fn kept(bits: Seq<Option<bool>>) -> Seq<int> {
    Seq::new(bits.len(), |i: int| i).filter(|i: int| bits[i] == Some(true))
}

/// The values at the set positions of a mask, in their old order.
pub open spec fn retained<T>(values: Seq<T>, bits: Seq<Option<bool>>) -> Seq<T> {
    kept(bits).map_values(|i: int| values[i])
}

/// What the masking kernel, `arrow::compute::kernels::filter::filter`, returns
/// for a column and the slots of a mask. The kernel has a branch for each type of
/// column, and some of them can refuse; what they answer is stated where the
/// kernel is called.
pub uninterp spec fn filter_outcome(values: ColumnView, bits: Seq<Option<bool>>) -> Result<
    ColumnView,
    ArrowError,
>;

/// What `RecordBatch::try_new` returns for a schema and columns. It holds the
/// columns against the schema, field by field, and refuses those that do not
/// fit; what it answers is stated where it is called.
pub uninterp spec fn assembly(schema: Schema, columns: Seq<ColumnView>) -> Result<BatchView, ArrowError>;

/// A column as a value: its type and what its slots hold.
pub struct ColumnView {
    pub data_type: DataType,
    pub cells: Seq<Cell>,
    pub booleans: Option<Seq<Option<bool>>>,
}

/// A batch as a value: its schema and its columns.
pub struct BatchView {
    pub schema: Schema,
    pub columns: Seq<ColumnView>,
}

impl BatchView {
    /// The number of rows: the length of the columns. A batch without columns
    /// counts as having none.
    pub open spec fn rows(self) -> nat {
        if self.columns.len() > 0 {
            self.columns[0].cells.len()
        } else {
            0
        }
    }

    /// All columns are equally long.
    pub open spec fn well_formed(self) -> bool {
        forall|k: int| 0 <= k < self.columns.len() ==> (#[trigger] self.columns[k]).cells.len() == self.rows()
    }

    /// Row `i`: the cells at slot `i`, one of each column.
    pub open spec fn row(self, i: int) -> Seq<Cell> {
        Seq::new(self.columns.len(), |k: int| self.columns[k].cells[i])
    }

    /// The rows, first row first.
    pub open spec fn row_seq(self) -> Seq<Seq<Cell>> {
        Seq::new(self.rows(), |i: int| self.row(i))
    }

    /// Whether `other` holds, column by column, the cells of this batch at the set
    /// positions of the mask.
    pub open spec fn retained_in(self, bits: Seq<Option<bool>>, other: BatchView) -> bool {
        &&& other.columns.len() == self.columns.len()
        &&& forall|k: int|
            0 <= k < self.columns.len() ==> (#[trigger] other.columns[k]).cells == retained(
                self.columns[k].cells,
                bits,
            )
    }
}

impl View for Column {
    type V = ColumnView;

    open spec fn view(&self) -> ColumnView {
        ColumnView {
            data_type: column_type(*self),
            cells: column_cells(*self),
            booleans: column_booleans(*self),
        }
    }
}

impl View for Batch {
    type V = BatchView;

    open spec fn view(&self) -> BatchView {
        BatchView { schema: batch_schema(*self), columns: views_of(batch_columns(*self)) }
    }
}

/// Some columns, each as a value.
pub open spec fn views_of(columns: Seq<Column>) -> Seq<ColumnView> {
    columns.map_values(|column: Column| column@)
}

/// A result with its column taken as a value.
pub open spec fn column_viewed<E>(result: Result<Column, E>) -> Result<ColumnView, E> {
    match result {
        Ok(column) => Ok(column@),
        Err(e) => Err(e),
    }
}

/// A result with its batch taken as a value.
pub open spec fn batch_viewed<E>(result: Result<Batch, E>) -> Result<BatchView, E> {
    match result {
        Ok(batch) => Ok(batch@),
        Err(e) => Err(e),
    }
}

impl Column {
    /// `Array::as_any` and `downcast_ref::<BooleanArray>`: the column as a boolean
    /// array, where it is one. Trusted: the array that comes back holds the
    /// column's slots, and none comes back for a column of another type.
    #[verifier::external_body]
    pub(crate) fn as_boolean(&self) -> (r: Option<BooleanArray>)
        ensures
            match r {
                Some(mask) => column_booleans(*self) == Some(mask_bits(mask)),
                None => column_booleans(*self) is None,
            },
    {
        self.array.as_any().downcast_ref::<BooleanArray>().cloned()
    }

    /// `arrow::compute::kernels::filter::filter`: the slots of the column at which
    /// the mask is set. Trusted: what the kernel returns depends on nothing but
    /// the column (its type and what its slots hold) and the mask. It refuses a
    /// mask that is longer than the column; where it answers, the answer holds the
    /// cells at the set positions of the mask, in their old order (a null in the
    /// mask counts as unset, and so does what lies beyond a shorter mask).
    #[verifier::external_body]
    pub(crate) fn filter(&self, mask: &BooleanArray) -> (r: Result<Column, ArrowError>)
        ensures
            column_viewed(r) == filter_outcome(
                (ColumnView {
                    data_type: column_type(*self),
                    cells: column_cells(*self),
                    booleans: column_booleans(*self),
                }),
                mask_bits(*mask),
            ),
            r matches Ok(out) ==> {
                &&& mask_bits(*mask).len() <= column_cells(*self).len()
                &&& column_cells(out) == retained(column_cells(*self), mask_bits(*mask))
            },
    {
        filter(self.array.as_ref(), mask).map(|array| Column { array })
    }
}

/// `BooleanArray::len`: the number of the array's slots.
#[verifier::external_body]
pub(crate) fn mask_len(mask: &BooleanArray) -> (n: usize)
    ensures
        n == mask_bits(*mask).len(),
{
    mask.len()
}

/// `Arc::clone` on a schema: another handle to the same schema.
#[verifier::external_body]
pub(crate) fn share(schema: &Arc<Schema>) -> (r: Arc<Schema>)
    ensures
        r == *schema,
{
    Arc::clone(schema)
}

impl Batch {
    /// `RecordBatch::columns`: the columns, in schema order. Trusted: they are the
    /// batch's columns, and equally long, as Arrow says of every record batch.
    #[verifier::external_body]
    pub(crate) fn columns(&self) -> (r: Vec<Column>)
        ensures
            r@ == batch_columns(*self),
            forall|k: int| 0 <= k < r@.len() ==> column_cells(#[trigger] r@[k]).len() == column_cells(r@[0]).len(),
    {
        self.record.columns().iter().map(|array| Column { array: array.clone() }).collect()
    }

    /// `RecordBatch::num_rows`. Trusted: it is the length of the columns, where
    /// the batch has any.
    #[verifier::external_body]
    pub(crate) fn num_rows(&self) -> (n: usize)
        ensures
            batch_columns(*self).len() > 0 ==> n == column_cells(batch_columns(*self)[0]).len(),
    {
        self.record.num_rows()
    }

    /// `RecordBatch::try_new`: a batch of the given schema and columns. Trusted:
    /// what it returns depends on the schema and the columns alone. It refuses an
    /// empty list of columns and columns of different lengths; where it answers,
    /// the batch has the schema and the columns it was given.
    #[verifier::external_body]
    pub(crate) fn try_new(schema: Arc<Schema>, columns: Vec<Column>) -> (r: Result<Batch, ArrowError>)
        ensures
            batch_viewed(r) == assembly(*schema, views_of(columns@)),
            r matches Ok(batch) ==> {
                &&& columns@.len() > 0
                &&& batch_schema(batch) == *schema
                &&& batch_columns(batch) == columns@
                &&& forall|k: int|
                    0 <= k < columns@.len() ==> column_cells(#[trigger] columns@[k]).len() == column_cells(
                        columns@[0],
                    ).len()
            },
    {
        RecordBatch::try_new(schema, columns.into_iter().map(|c| c.array).collect()).map(
            |record| Batch { record },
        )
    }
}

/// The first `n` positions, filtered like `kept` filters all of them.
spec fn kept_below(bits: Seq<Option<bool>>, n: nat) -> Seq<int> {
    Seq::new(n, |i: int| i).filter(|i: int| bits[i] == Some(true))
}

proof fn lemma_kept_below(bits: Seq<Option<bool>>, n: nat)
    ensures
        forall|j: int|
            0 <= j < kept_below(bits, n).len() ==> 0 <= (#[trigger] kept_below(bits, n)[j]) < n && bits[kept_below(
                bits,
                n,
            )[j]] == Some(true),
        forall|a: int, b: int|
            0 <= a < b < kept_below(bits, n).len() ==> kept_below(bits, n)[a] < kept_below(bits, n)[b],
        forall|i: int| 0 <= i < n && bits[i] == Some(true) ==> kept_below(bits, n).contains(i),
    decreases n,
{
    reveal(Seq::filter);
    if n > 0 {
        let m = (n - 1) as nat;
        let all = Seq::new(n, |i: int| i);
        assert(all.drop_last() =~= Seq::new(m, |i: int| i));
        lemma_kept_below(bits, m);
        let below = kept_below(bits, m);
        if bits[m as int] == Some(true) {
            assert forall|i: int| 0 <= i < n && bits[i] == Some(true) implies kept_below(bits, n).contains(
                i,
            ) by {
                if i < m {
                    let j = choose|j: int| 0 <= j < below.len() && below[j] == i;
                    assert(kept_below(bits, n)[j] == i);
                }
            }
        }
    }
}

/// The kept positions are the set positions of the mask, each once and in
/// rising order.
pub proof fn lemma_kept_positions(bits: Seq<Option<bool>>)
    ensures
        forall|j: int|
            0 <= j < kept(bits).len() ==> 0 <= (#[trigger] kept(bits)[j]) < bits.len() && bits[kept(bits)[j]]
                == Some(true),
        forall|a: int, b: int| 0 <= a < b < kept(bits).len() ==> kept(bits)[a] < kept(bits)[b],
        forall|i: int| 0 <= i < bits.len() && bits[i] == Some(true) ==> kept(bits).contains(i),
{
    lemma_kept_below(bits, bits.len());
}

/// A mask without a set position keeps nothing.
pub proof fn lemma_nothing_kept<T>(values: Seq<T>, bits: Seq<Option<bool>>)
    requires
        forall|i: int| 0 <= i < bits.len() ==> bits[i] != Some(true),
    ensures
        retained(values, bits).len() == 0,
{
    lemma_kept_positions(bits);
    if kept(bits).len() > 0 {
        assert(bits[kept(bits)[0]] == Some(true));
    }
}

/// Filtering column by column is filtering row by row: the rows of the retained
/// columns are the rows at the set positions of the mask, in their old order.
pub proof fn lemma_retained_rows(batch: BatchView, bits: Seq<Option<bool>>, out: BatchView)
    requires
        batch.well_formed(),
        batch.columns.len() > 0,
        bits.len() == batch.rows(),
        batch.retained_in(bits, out),
    ensures
        out.well_formed(),
        out.rows() == kept(bits).len(),
        out.row_seq() == retained(batch.row_seq(), bits),
{
    lemma_kept_positions(bits);
    assert forall|j: int| 0 <= j < out.rows() implies out.row(j) == batch.row(kept(bits)[j]) by {}
}

} // verus!
