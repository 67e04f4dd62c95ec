//! The filter: the operator that keeps the rows of its source for which a
//! predicate holds.

use crate::columnar::assembly;
use crate::columnar::batch_viewed;
use crate::columnar::column_cells;
use crate::columnar::column_viewed;
use crate::columnar::filter_outcome;
use crate::columnar::mask_bits;
use crate::columnar::lemma_nothing_kept;
use crate::columnar::lemma_retained_rows;
use crate::columnar::mask_len;
use crate::columnar::retained;
use crate::columnar::share;
use crate::columnar::views_of;
use crate::columnar::Batch;
use crate::columnar::BatchView;
use crate::columnar::Column;
use crate::columnar::ColumnView;
use crate::logical::logical::NodeMetadata;
use crate::physical::expression::Expression;
use crate::physical::physical::conducted;
use crate::physical::physical::events_of;
use crate::physical::physical::results_of;
use crate::physical::physical::messages;
use crate::physical::physical::ran;
use crate::physical::physical::state_before;
use crate::physical::physical::Event;
use crate::physical::physical::ExecError;
use crate::physical::physical::ExecutionContext;
use crate::physical::physical::Hop;
use crate::physical::physical::MetaSendFn;
use crate::physical::physical::MetadataMessage;
use crate::physical::physical::Node;
use crate::physical::physical::ProduceFn;
use arrow::datatypes::Schema;
use arrow::error::ArrowError;
use std::sync::Arc;
use vstd::prelude::*;

verus! {

/// The mask that a predicate's column is for a batch: its slots as booleans. A
/// column that is not boolean is no mask, nor is one with another number of
/// slots than the batch has rows.
pub open spec fn mask_of(batch: BatchView, column: ColumnView) -> Result<Seq<Option<bool>>, ExecError> {
    match column.booleans {
        None => Err(ExecError::PredicateNotBoolean),
        Some(bits) => if batch.columns.len() > 0 && bits.len() != batch.rows() {
            Err(ExecError::MaskLength { mask: bits.len() as usize, rows: batch.rows() as usize })
        } else {
            Ok(bits)
        },
    }
}

/// What the masking kernel returns for each of some columns: its answers, or the
/// error of the first column that it refuses.
pub open spec fn filtered_columns(columns: Seq<ColumnView>, bits: Seq<Option<bool>>) -> Result<
    Seq<ColumnView>,
    ArrowError,
>
    decreases columns.len(),
{
    if columns.len() == 0 {
        Ok(Seq::empty())
    } else {
        match filtered_columns(columns.drop_last(), bits) {
            Err(e) => Err(e),
            Ok(earlier) => match filter_outcome(columns.last(), bits) {
                Err(e) => Err(e),
                Ok(column) => Ok(earlier.push(column)),
            },
        }
    }
}

/// What filtering `batch` by the column `column` gives: the error of a column
/// that is no mask; else the error of the first column that the masking kernel
/// refuses; else what Arrow makes of the kernel's answers under `schema`, a batch
/// or an error.
pub open spec fn filtered(schema: Schema, batch: BatchView, column: ColumnView) -> Result<
    BatchView,
    ExecError,
> {
    match mask_of(batch, column) {
        Err(e) => Err(e),
        Ok(bits) => match filtered_columns(batch.columns, bits) {
            Err(e) => Err(ExecError::Primitive(e)),
            Ok(columns) => match assembly(schema, columns) {
                Err(e) => Err(ExecError::Primitive(e)),
                Ok(out) => Ok(out),
            },
        },
    }
}

/// Whether `result` is what filtering `batch` by the column `column` gives, and
/// is as the columnar primitives promise: a batch that comes back has the schema
/// `schema` and holds, column by column, the cells of `batch` at the set
/// positions of the mask; and none comes back for a batch without columns.
pub open spec fn filters_to(
    schema: Schema,
    batch: BatchView,
    column: ColumnView,
    result: Result<BatchView, ExecError>,
) -> bool {
    &&& result == filtered(schema, batch, column)
    &&& match result {
        Ok(out) => {
            &&& batch.columns.len() > 0
            &&& out.schema == schema
            &&& out.well_formed()
            &&& match mask_of(batch, column) {
                Ok(bits) => batch.retained_in(bits, out),
                Err(_) => false,
            }
        },
        Err(_) => true,
    }
}

/// Once the masking kernel has refused a column, it has refused the batch.
proof fn lemma_refusal_stays(columns: Seq<ColumnView>, bits: Seq<Option<bool>>, k: int)
    requires
        0 <= k <= columns.len(),
        filtered_columns(columns.take(k), bits) is Err,
    ensures
        filtered_columns(columns, bits) == filtered_columns(columns.take(k), bits),
    decreases columns.len() - k,
{
    if k == columns.len() {
        assert(columns.take(k) == columns);
    } else {
        assert(columns.drop_last().take(k) == columns.take(k));
        lemma_refusal_stays(columns.drop_last(), bits, k);
    }
}

/// Filters one batch by the column that a predicate evaluated to: every column
/// of the batch goes through the masking kernel, and the columns that come back
/// are assembled under `schema`.
pub fn filter_batch(schema: &Arc<Schema>, batch: &Batch, predicate: &Column) -> (result: Result<
    Batch,
    ExecError,
>)
    ensures
        filters_to(**schema, batch@, predicate@, batch_viewed(result)),
{
    let mask = match predicate.as_boolean() {
        Some(mask) => mask,
        None => {
            return Err(ExecError::PredicateNotBoolean);
        },
    };
    let columns = batch.columns();
    if columns.len() > 0 {
        let rows = batch.num_rows();
        let slots = mask_len(&mask);
        if slots != rows {
            return Err(ExecError::MaskLength { mask: slots, rows });
        }
    }
    let ghost bits = mask_bits(mask);
    let ghost views = views_of(columns@);
    let mut new_columns: Vec<Column> = Vec::new();
    let mut k: usize = 0;
    assert(views_of(new_columns@) == Seq::<ColumnView>::empty());
    while k < columns.len()
        invariant
            mask_of(batch@, predicate@) == Ok::<Seq<Option<bool>>, ExecError>(bits),
            bits == mask_bits(mask),
            views == views_of(columns@),
            views == batch@.columns,
            k <= columns.len(),
            new_columns@.len() == k,
            filtered_columns(views.take(k as int), bits) == Ok::<Seq<ColumnView>, ArrowError>(
                views_of(new_columns@),
            ),
            forall|j: int|
                0 <= j < k ==> column_cells(#[trigger] new_columns@[j]) == retained(
                    column_cells(columns@[j]),
                    bits,
                ),
        decreases columns.len() - k,
    {
        let answer = columns[k].filter(&mask);
        proof {
            assert(views.take(k + 1).drop_last() == views.take(k as int));
        }
        match answer {
            Ok(column) => {
                proof {
                    assert(views_of(new_columns@.push(column)) == views_of(new_columns@).push(column@));
                }
                new_columns.push(column);
            },
            Err(e) => {
                proof {
                    lemma_refusal_stays(views, bits, k + 1);
                }
                return Err(ExecError::Primitive(e));
            },
        }
        k += 1;
    }
    assert(views.take(k as int) == views);
    match Batch::try_new(share(schema), new_columns) {
        Ok(out) => Ok(out),
        Err(e) => Err(ExecError::Primitive(e)),
    }
}

/// What a filter makes of one batch of its source.
pub enum Verdict {
    /// The batch of the retained rows goes on to the consumer.
    Forward(BatchView),
    /// No row is retained, and nothing goes on.
    Suppress,
    /// The run ends with this error.
    Fail(ExecError),
}

/// The verdict that follows from the result of filtering: a batch goes on if it
/// has rows.
pub open spec fn verdict_of(filtered: Result<BatchView, ExecError>) -> Verdict {
    match filtered {
        Err(e) => Verdict::Fail(e),
        Ok(out) => if out.rows() > 0 {
            Verdict::Forward(out)
        } else {
            Verdict::Suppress
        },
    }
}

/// A filter's verdict on `batch`, where its predicate evaluated to `value`. A
/// predicate that fails, fails the run with its error.
pub open spec fn verdict(schema: Schema, batch: BatchView, value: Result<ColumnView, ExecError>) -> Verdict {
    match value {
        Err(e) => Verdict::Fail(e),
        Ok(column) => verdict_of(filtered(schema, batch, column)),
    }
}

/// Whether the columnar primitives, called on `batch` and the column that the
/// predicate gave, answered as they promise.
pub open spec fn as_promised(schema: Schema, batch: BatchView, value: Result<ColumnView, ExecError>) -> bool {
    match value {
        Err(_) => true,
        Ok(column) => filters_to(schema, batch, column, filtered(schema, batch, column)),
    }
}

/// Whether a filter that got `batch` with the context `ctx`, and whose predicate
/// evaluated to `value`, may take the state from `before` to `after` and return
/// `result`. A batch that goes on is handed to `produce`, with the context that
/// it came with; otherwise the state stays as it was.
pub open spec fn relayed<S, P: ProduceFn<S>>(
    schema: Schema,
    produce: P,
    ctx: ExecutionContext,
    batch: BatchView,
    value: Result<ColumnView, ExecError>,
    before: S,
    after: S,
    result: Result<(), ExecError>,
) -> bool {
    &&& as_promised(schema, batch, value)
    &&& match verdict(schema, batch, value) {
        Verdict::Forward(out) => produce.produces(ctx, out, before, after, result),
        Verdict::Suppress => after == before && result == Ok::<(), ExecError>(()),
        Verdict::Fail(e) => after == before && result == Err::<(), ExecError>(e),
    }
}

/// Whether the callback that a filter hands to its source, called with `ctx` and
/// `batch`, may take the state from `before` to `after` and return `result`: the
/// predicate is evaluated under the context of the run, `run_ctx`, and what it
/// gives decides as `relayed` says.
pub open spec fn relays<S, E: Expression, P: ProduceFn<S>>(
    predicate: E,
    run_ctx: ExecutionContext,
    schema: Schema,
    produce: P,
    ctx: ExecutionContext,
    batch: BatchView,
    before: S,
    after: S,
    result: Result<(), ExecError>,
) -> bool {
    exists|value: Result<ColumnView, ExecError>| #[trigger]
        predicate.evaluates(run_ctx, batch, value) && relayed(
            schema,
            produce,
            ctx,
            batch,
            value,
            before,
            after,
            result,
        )
}

/// `conducted`, for a source that ran against the callback of a filter: its
/// batches went through `relays`, its metadata messages to `meta_send` itself.
pub open spec fn filtering<S, E: Expression, P: ProduceFn<S>, M: MetaSendFn<S>>(
    predicate: E,
    run_ctx: ExecutionContext,
    schema: Schema,
    produce: P,
    meta_send: M,
    start: S,
    hops: Seq<Hop<S>>,
    end: S,
    result: Result<(), ExecError>,
) -> bool {
    conducted(
        |c: ExecutionContext, b: BatchView, s: S, t: S, r: Result<(), ExecError>|
            relays(predicate, run_ctx, schema, produce, c, b, s, t, r),
        |c: ExecutionContext, m: MetadataMessage, s: S, t: S, r: Result<(), ExecError>|
            meta_send.sends(c, m, s, t, r),
        schema,
        start,
        hops,
        end,
        result,
    )
}

/// Whether a filter whose source hands over `event` and gets `answer` back lets
/// `emerging` go on to its own callbacks. A metadata message goes on as it is. Of
/// a batch the batch of the retained rows goes on, if it has any; the answer is
/// then the callback's. Where nothing goes on, the answer is the filter's own:
/// `Ok` for a batch without retained rows, else the error.
pub open spec fn passes<E: Expression>(
    predicate: E,
    run_ctx: ExecutionContext,
    schema: Schema,
    event: Event,
    answer: Result<(), ExecError>,
    emerging: Option<Event>,
) -> bool {
    match event {
        Event::Metadata(_, _) => emerging == Some(event),
        Event::Batch(ctx, batch) => exists|value: Result<ColumnView, ExecError>| #[trigger]
            predicate.evaluates(run_ctx, batch, value) && as_promised(schema, batch, value) && match verdict(
                schema,
                batch,
                value,
            ) {
                Verdict::Forward(out) => emerging == Some(Event::Batch(ctx, out)),
                Verdict::Suppress => emerging is None && answer == Ok::<(), ExecError>(()),
                Verdict::Fail(e) => emerging is None && answer == Err::<(), ExecError>(e),
            },
    }
}

/// Whether a filter whose source hands over `handed` and gets `answers` back
/// hands over `events` itself and gets `results` back: what emerges of each
/// event, in the order of the source, with the answer of the callback as the
/// source's answer.
pub open spec fn passed_on<E: Expression>(
    predicate: E,
    run_ctx: ExecutionContext,
    schema: Schema,
    handed: Seq<Event>,
    answers: Seq<Result<(), ExecError>>,
    events: Seq<Event>,
    results: Seq<Result<(), ExecError>>,
) -> bool
    decreases handed.len(),
{
    &&& answers.len() == handed.len()
    &&& results.len() == events.len()
    &&& if handed.len() == 0 {
        events.len() == 0
    } else {
        ||| {
            &&& events.len() > 0
            &&& passes(predicate, run_ctx, schema, handed.last(), answers.last(), Some(events.last()))
            &&& results.last() == answers.last()
            &&& passed_on(
                predicate,
                run_ctx,
                schema,
                handed.drop_last(),
                answers.drop_last(),
                events.drop_last(),
                results.drop_last(),
            )
        }
        ||| {
            &&& passes(predicate, run_ctx, schema, handed.last(), answers.last(), None)
            &&& passed_on(predicate, run_ctx, schema, handed.drop_last(), answers.drop_last(), events, results)
        }
    }
}

/// What a filter does with one batch of its source once its predicate has been
/// evaluated to `value`: it fails with the predicate's error, or filters the
/// batch by the predicate's column and hands the outcome to `produce` if that has
/// rows.
pub fn relay<S, P: ProduceFn<S>>(
    schema: &Arc<Schema>,
    produce: &P,
    ctx: &ExecutionContext,
    batch: Batch,
    value: Result<Column, ExecError>,
    state: &mut S,
) -> (result: Result<(), ExecError>)
    ensures
        relayed(**schema, *produce, *ctx, batch@, column_viewed(value), *old(state), *final(state), result),
{
    let column = match value {
        Ok(column) => column,
        Err(e) => {
            return Err(e);
        },
    };
    let new_batch = match filter_batch(schema, &batch, &column) {
        Ok(new_batch) => new_batch,
        Err(e) => {
            return Err(e);
        },
    };
    if new_batch.num_rows() > 0 {
        produce.produce(ctx, new_batch, state)
    } else {
        Ok(())
    }
}

/// The callback that a filter hands to its source in place of `produce`.
struct FilterProduce<'a, E, P> {
    predicate: &'a E,
    ctx: &'a ExecutionContext,
    schema: Arc<Schema>,
    produce: &'a P,
}

impl<'a, S, E: Expression, P: ProduceFn<S>> ProduceFn<S> for FilterProduce<'a, E, P> {
    closed spec fn produces(
        &self,
        ctx: ExecutionContext,
        batch: BatchView,
        before: S,
        after: S,
        result: Result<(), ExecError>,
    ) -> bool {
        relays(*self.predicate, *self.ctx, *self.schema, *self.produce, ctx, batch, before, after, result)
    }

    fn produce(&self, ctx: &ExecutionContext, batch: Batch, state: &mut S) -> (result: Result<
        (),
        ExecError,
    >) {
        let value = self.predicate.evaluate(self.ctx, &batch);
        relay(&self.schema, self.produce, ctx, batch, value, state)
    }
}

/// A batch that a filter hands on has the filter's schema, and its rows are the
/// rows of the source's batch at which the predicate's column is set: all of
/// them and no others, in their old order.
pub proof fn lemma_forwarded_rows(
    schema: Schema,
    batch: BatchView,
    value: Result<ColumnView, ExecError>,
    out: BatchView,
)
    requires
        batch.well_formed(),
        as_promised(schema, batch, value),
        verdict(schema, batch, value) == Verdict::Forward(out),
    ensures
        out.schema == schema,
        out.well_formed(),
        out.rows() > 0,
        match value {
            Ok(column) => match column.booleans {
                Some(bits) => bits.len() == batch.rows() && out.row_seq() == retained(batch.row_seq(), bits),
                None => false,
            },
            Err(_) => false,
        },
{
    let bits = value->Ok_0.booleans->Some_0;
    lemma_retained_rows(batch, bits, out);
}

/// Where the predicate's column is a mask without a set position, the filter
/// hands nothing on, and it does not fail unless a columnar primitive refuses
/// the batch.
pub proof fn lemma_empty_result_suppressed(
    schema: Schema,
    batch: BatchView,
    column: ColumnView,
    bits: Seq<Option<bool>>,
)
    requires
        as_promised(schema, batch, Ok(column)),
        mask_of(batch, column) == Ok::<Seq<Option<bool>>, ExecError>(bits),
        forall|i: int| 0 <= i < bits.len() ==> bits[i] != Some(true),
    ensures
        match verdict(schema, batch, Ok(column)) {
            Verdict::Forward(_) => false,
            Verdict::Suppress => true,
            Verdict::Fail(e) => e is Primitive,
        },
{
    if filtered(schema, batch, column) is Ok {
        lemma_nothing_kept(batch.columns[0].cells, bits);
    }
}

/// A batch of which no row is kept is no error: the filter leaves the state as
/// it was and answers its source with `Ok`, so that the source goes on. The one
/// exception is a batch that a columnar primitive refuses; the answer is then
/// that primitive's error.
pub proof fn lemma_suppressed_batch_is_no_error<S, P: ProduceFn<S>>(
    schema: Schema,
    produce: P,
    ctx: ExecutionContext,
    batch: BatchView,
    column: ColumnView,
    bits: Seq<Option<bool>>,
    before: S,
    after: S,
    answer: Result<(), ExecError>,
)
    requires
        relayed(schema, produce, ctx, batch, Ok(column), before, after, answer),
        mask_of(batch, column) == Ok::<Seq<Option<bool>>, ExecError>(bits),
        forall|i: int| 0 <= i < bits.len() ==> bits[i] != Some(true),
    ensures
        after == before,
        match filtered(schema, batch, column) {
            Ok(_) => answer == Ok::<(), ExecError>(()),
            Err(e) => e is Primitive && answer == Err::<(), ExecError>(e),
        },
{
    lemma_empty_result_suppressed(schema, batch, column, bits);
}

/// Whether the filter does not fail on `event`, whatever its predicate gives. It
/// never fails on a metadata message.
pub open spec fn fails_never<E: Expression>(
    predicate: E,
    run_ctx: ExecutionContext,
    schema: Schema,
    event: Event,
) -> bool {
    match event {
        Event::Batch(_, batch) => forall|value: Result<ColumnView, ExecError>| #[trigger]
            predicate.evaluates(run_ctx, batch, value) ==> !(verdict(schema, batch, value) is Fail),
        Event::Metadata(_, _) => true,
    }
}

/// Where no callback fails and the filter fails on no batch, the source gets
/// `Ok` for everything it hands over: a failure that the source sees is one of
/// the callbacks or one of the filter, never one made up.
pub proof fn lemma_answers_ok_where_nothing_fails<E: Expression>(
    predicate: E,
    run_ctx: ExecutionContext,
    schema: Schema,
    handed: Seq<Event>,
    answers: Seq<Result<(), ExecError>>,
    events: Seq<Event>,
    results: Seq<Result<(), ExecError>>,
)
    requires
        passed_on(predicate, run_ctx, schema, handed, answers, events, results),
        forall|j: int| 0 <= j < results.len() ==> (#[trigger] results[j]) is Ok,
        forall|i: int| 0 <= i < handed.len() ==> fails_never(predicate, run_ctx, schema, #[trigger] handed[i]),
    ensures
        forall|i: int| 0 <= i < answers.len() ==> (#[trigger] answers[i]) is Ok,
    decreases handed.len(),
{
    if handed.len() > 0 {
        let n = handed.len() - 1;
        let earlier = handed.drop_last();
        assert(fails_never(predicate, run_ctx, schema, handed[n]));
        assert forall|i: int| 0 <= i < earlier.len() implies fails_never(
            predicate,
            run_ctx,
            schema,
            #[trigger] earlier[i],
        ) by {
            assert(earlier[i] == handed[i]);
        }
        if events.len() > 0 && passes(predicate, run_ctx, schema, handed.last(), answers.last(), Some(events.last()))
            && results.last() == answers.last() && passed_on(
            predicate,
            run_ctx,
            schema,
            earlier,
            answers.drop_last(),
            events.drop_last(),
            results.drop_last(),
        ) {
            assert(results[results.len() - 1] is Ok);
            assert forall|j: int| 0 <= j < results.drop_last().len() implies (#[trigger] results.drop_last()[j]) is Ok by {
                assert(results.drop_last()[j] == results[j]);
            }
            lemma_answers_ok_where_nothing_fails(
                predicate,
                run_ctx,
                schema,
                earlier,
                answers.drop_last(),
                events.drop_last(),
                results.drop_last(),
            );
        } else {
            lemma_answers_ok_where_nothing_fails(
                predicate,
                run_ctx,
                schema,
                earlier,
                answers.drop_last(),
                events,
                results,
            );
        }
        assert forall|i: int| 0 <= i < answers.len() implies (#[trigger] answers[i]) is Ok by {
            if i < n {
                assert(answers.drop_last()[i] == answers[i]);
            }
        }
    }
}

/// Where the predicate gives a column that is not boolean, the run ends there:
/// the call is the last one, it leaves the state as it found it, and the run
/// returns the error that says so.
pub proof fn lemma_not_boolean_ends_run<S, E: Expression, P: ProduceFn<S>, M: MetaSendFn<S>>(
    predicate: E,
    run_ctx: ExecutionContext,
    schema: Schema,
    produce: P,
    meta_send: M,
    start: S,
    hops: Seq<Hop<S>>,
    end: S,
    result: Result<(), ExecError>,
    i: int,
)
    requires
        filtering(predicate, run_ctx, schema, produce, meta_send, start, hops, end, result),
        0 <= i < hops.len(),
        match hops[i].event {
            Event::Batch(_, batch) => forall|value: Result<ColumnView, ExecError>| #[trigger]
                predicate.evaluates(run_ctx, batch, value) ==> match value {
                    Ok(column) => column.booleans is None,
                    Err(_) => false,
                },
            Event::Metadata(_, _) => false,
        },
    ensures
        i == hops.len() - 1,
        end == state_before(start, hops, i),
        result == Err::<(), ExecError>(ExecError::PredicateNotBoolean),
{
}

/// The calls that reached `produce` and `meta_send` while a source ran against
/// the callback of a filter and made the calls `hops`: a batch that went on is a
/// call of `produce` with the batch of the retained rows, a metadata message is
/// a call of `meta_send` with the same message, and a batch that did not go on
/// is no call at all.
pub proof fn lemma_calls_above<S, E: Expression, P: ProduceFn<S>, M: MetaSendFn<S>>(
    predicate: E,
    run_ctx: ExecutionContext,
    schema: Schema,
    produce: P,
    meta_send: M,
    start: S,
    hops: Seq<Hop<S>>,
    end: S,
    result: Result<(), ExecError>,
) -> (calls: Seq<Hop<S>>)
    requires
        filtering(predicate, run_ctx, schema, produce, meta_send, start, hops, end, result),
    ensures
        ran(produce, meta_send, schema, start, calls, end, result),
        passed_on(
            predicate,
            run_ctx,
            schema,
            events_of(hops),
            results_of(hops),
            events_of(calls),
            results_of(calls),
        ),
        messages(calls) == messages(hops),
        (forall|i: int| 0 <= i < hops.len() ==> (#[trigger] hops[i]).result is Ok) ==> (forall|j: int|
            0 <= j < calls.len() ==> (#[trigger] calls[j]).result is Ok),
    decreases hops.len(),
{
    if hops.len() == 0 {
        Seq::empty()
    } else {
        let n = hops.len() - 1;
        let init = hops.drop_last();
        let last = hops[n];
        let mid = state_before(start, hops, n);
        assert forall|i: int| 0 <= i < n implies state_before(start, init, i) == state_before(start, hops, i)
            && init[i] == hops[i] by {}
        let below = lemma_calls_above(predicate, run_ctx, schema, produce, meta_send, start, init, mid, result);
        assert(events_of(hops).drop_last() == events_of(init));
        assert(results_of(hops).drop_last() == results_of(init));
        let calls = match last.event {
            Event::Metadata(c, m) => {
                assert(below.push(last).drop_last() == below);
                assert(events_of(below.push(last)).drop_last() == events_of(below));
                assert(results_of(below.push(last)).drop_last() == results_of(below));
                below.push(last)
            },
            Event::Batch(c, b) => {
                let value = choose|value: Result<ColumnView, ExecError>| #[trigger]
                    predicate.evaluates(run_ctx, b, value) && relayed(
                        schema,
                        produce,
                        c,
                        b,
                        value,
                        mid,
                        last.after,
                        last.result,
                    );
                match verdict(schema, b, value) {
                    Verdict::Forward(out) => {
                        let call = Hop { event: Event::Batch(c, out), after: last.after, result: last.result };
                        assert(below.push(call).drop_last() == below);
                        assert(events_of(below.push(call)).drop_last() == events_of(below));
                        assert(results_of(below.push(call)).drop_last() == results_of(below));
                        assert(passes(predicate, run_ctx, schema, last.event, last.result, Some(call.event)));
                        below.push(call)
                    },
                    _ => {
                        assert(passes(predicate, run_ctx, schema, last.event, last.result, None));
                        below
                    },
                }
            },
        };
        assert forall|i: int| 0 <= i <= below.len() implies state_before(start, calls, i) == state_before(
            start,
            below,
            i,
        ) by {}
        calls
    }
}

/// The filter: it hands on, of each batch of its source, the rows for which its
/// predicate holds, and every metadata message as it came.
pub struct Filter<E: Expression, N: Node> {
    logical_metadata: NodeMetadata,
    filter_expr: E,
    source: N,
}

impl<E: Expression, N: Node> Filter<E, N> {
    /// A filter declares the schema of its source: filtering changes the number
    /// of rows, never the columns.
    #[verifier::type_invariant]
    spec fn declares_source_schema(self) -> bool {
        self.logical_metadata.schema == self.source.metadata().schema
    }

    /// The predicate.
    pub closed spec fn predicate(&self) -> E {
        self.filter_expr
    }

    /// The node whose output is filtered.
    pub closed spec fn source(&self) -> N {
        self.source
    }

    /// A filter of `source` by `filter_expr`, described by `logical_metadata`,
    /// which declares the schema of the source.
    pub fn new(logical_metadata: NodeMetadata, filter_expr: E, source: N) -> (filter: Filter<E, N>)
        requires
            logical_metadata.schema == source.metadata().schema,
        ensures
            filter.metadata() == logical_metadata,
            filter.predicate() == filter_expr,
            filter.source() == source,
    {
        Filter { logical_metadata, filter_expr, source }
    }
}

impl<E: Expression, N: Node> Node for Filter<E, N> {
    closed spec fn metadata(&self) -> NodeMetadata {
        self.logical_metadata
    }

    /// A filter hands over what emerges of what its source hands over, and
    /// returns what its source returns.
    open spec fn runs(
        &self,
        ctx: ExecutionContext,
        events: Seq<Event>,
        results: Seq<Result<(), ExecError>>,
        result: Result<(), ExecError>,
    ) -> bool {
        exists|handed: Seq<Event>, answers: Seq<Result<(), ExecError>>|
            {
                &&& #[trigger] self.source().runs(ctx, handed, answers, result)
                &&& passed_on(
                    self.predicate(),
                    ctx,
                    *self.source().metadata().schema,
                    handed,
                    answers,
                    events,
                    results,
                )
            }
    }

    fn logical_metadata(&self) -> (metadata: NodeMetadata) {
        self.logical_metadata.clone()
    }

    /// Runs the source, under the same context, against a callback that filters
    /// each batch before it goes to `produce`, and against `meta_send` itself,
    /// and returns what the source returns. The source's calls, as `filtering`
    /// describes them, account for all that happens to `state`.
    fn run<S, P: ProduceFn<S>, M: MetaSendFn<S>>(
        &self,
        ctx: &ExecutionContext,
        produce: &P,
        meta_send: &M,
        state: &mut S,
    ) -> (result: Result<(), ExecError>)
        ensures
            self.metadata().schema == self.source().metadata().schema,
            exists|hops: Seq<Hop<S>>|
                {
                    &&& #[trigger] filtering(
                        self.predicate(),
                        *ctx,
                        *self.metadata().schema,
                        *produce,
                        *meta_send,
                        *old(state),
                        hops,
                        *final(state),
                        result,
                    )
                    &&& self.source().runs(*ctx, events_of(hops), results_of(hops), result)
                },
    {
        proof {
            use_type_invariant(self);
        }
        let source_schema = self.source.logical_metadata().schema;
        let filter_produce = FilterProduce { predicate: &self.filter_expr, ctx, schema: source_schema, produce };
        let result = self.source.run(ctx, &filter_produce, meta_send, state);
        proof {
            let schema = *self.metadata().schema;
            let hops = choose|hops: Seq<Hop<S>>|
                {
                    &&& #[trigger] ran(filter_produce, *meta_send, schema, *old(state), hops, *state, result)
                    &&& self.source.runs(*ctx, events_of(hops), results_of(hops), result)
                };
            assert(filtering(
                self.predicate(),
                *ctx,
                *self.metadata().schema,
                *produce,
                *meta_send,
                *old(state),
                hops,
                *state,
                result,
            ));
            let calls = lemma_calls_above(
                self.filter_expr,
                *ctx,
                schema,
                *produce,
                *meta_send,
                *old(state),
                hops,
                *state,
                result,
            );
            assert(self.source().runs(*ctx, events_of(hops), results_of(hops), result));
            assert(passed_on(
                self.predicate(),
                *ctx,
                *self.source().metadata().schema,
                events_of(hops),
                results_of(hops),
                events_of(calls),
                results_of(calls),
            ));
            assert(self.runs(*ctx, events_of(calls), results_of(calls), result));
        }
        result
    }
}

/// A filter's description of itself does not change: whatever two calls of
/// `logical_metadata` return is the same.
pub proof fn lemma_metadata_is_stable<E: Expression, N: Node>(
    filter: Filter<E, N>,
    first: NodeMetadata,
    second: NodeMetadata,
)
    requires
        call_ensures(Filter::<E, N>::logical_metadata, (&filter,), first),
        call_ensures(Filter::<E, N>::logical_metadata, (&filter,), second),
    ensures
        first == second,
        first == filter.metadata(),
{
}

} // verus!
