//! The operator protocol: nodes, the callbacks they push their output through,
//! and the state those callbacks write to.

use crate::columnar::Batch;
use crate::columnar::BatchView;
use crate::logical::logical::NodeMetadata;
use arrow::datatypes::Schema;
use arrow::error::ArrowError;
use vstd::prelude::*;

verus! {

/// The state of one query execution, handed by shared reference to every node,
/// expression and callback of the plan. Nothing in this crate changes it.
pub struct ExecutionContext {
    /// The values bound to the query's parameters, by position.
    pub parameters: Vec<i64>,
}

/// A signal that travels beside the batches and says how far the stream has
/// come. It is no row, and operators that keep no state hand it on as it is.
#[derive(Clone, Copy, Debug, PartialEq, Eq, Structural)]
pub enum MetadataMessage {
    /// No row with an event time below the bound is still to come.
    Watermark(i64),
    /// Nothing is still to come.
    EndOfStream,
}

/// Why a run ended early.
#[derive(Debug)]
pub enum ExecError {
    /// An expression could not be evaluated.
    Evaluation(String),
    /// A predicate gave a column that is not boolean.
    PredicateNotBoolean,
    /// A predicate gave a column of `mask` slots for a batch of `rows` rows.
    MaskLength { mask: usize, rows: usize },
    /// A columnar primitive refused its input.
    Primitive(ArrowError),
    /// A source or a callback gave up, for the reason it states.
    Aborted(String),
}

/// What a node hands to its callbacks: a batch to `produce`, a message to
/// `meta_send`, each with the context of the call.
pub enum Event {
    Batch(ExecutionContext, BatchView),
    Metadata(ExecutionContext, MetadataMessage),
}

/// One call of a callback during a run: what was handed over, the state that the
/// call left behind, and what it returned.
pub struct Hop<S> {
    pub event: Event,
    pub after: S,
    pub result: Result<(), ExecError>,
}

/// The state in which call `i` of a run found things: the state the run started
/// from, or the one that the call before left behind.
pub open spec fn state_before<S>(start: S, hops: Seq<Hop<S>>, i: int) -> S {
    if i <= 0 {
        start
    } else {
        hops[i - 1].after
    }
}

/// A run that made the calls `hops`, one after the other and nothing else, took
/// the state from `start` to `end` and returned `result`. The relations `on_batch`
/// and `on_message` say what one call of each callback may do. Every batch handed
/// over has the schema `schema`. A call that fails is the last one, and its error
/// is the run's.
pub open spec fn conducted<S>(
    on_batch: spec_fn(ExecutionContext, BatchView, S, S, Result<(), ExecError>) -> bool,
    on_message: spec_fn(ExecutionContext, MetadataMessage, S, S, Result<(), ExecError>) -> bool,
    schema: Schema,
    start: S,
    hops: Seq<Hop<S>>,
    end: S,
    result: Result<(), ExecError>,
) -> bool {
    &&& end == state_before(start, hops, hops.len() as int)
    &&& forall|i: int|
        0 <= i < hops.len() ==> match (#[trigger] hops[i]).event {
            Event::Batch(ctx, batch) => {
                &&& batch.schema == schema
                &&& on_batch(ctx, batch, state_before(start, hops, i), hops[i].after, hops[i].result)
            },
            Event::Metadata(ctx, message) => on_message(
                ctx,
                message,
                state_before(start, hops, i),
                hops[i].after,
                hops[i].result,
            ),
        }
    &&& forall|i: int|
        0 <= i < hops.len() && (#[trigger] hops[i]).result is Err ==> i == hops.len() - 1 && result
            == hops[i].result
}

/// What some calls handed over, in the order of the calls.
pub open spec fn events_of<S>(hops: Seq<Hop<S>>) -> Seq<Event> {
    hops.map_values(|hop: Hop<S>| hop.event)
}

/// What some calls returned, in the order of the calls.
pub open spec fn results_of<S>(hops: Seq<Hop<S>>) -> Seq<Result<(), ExecError>> {
    hops.map_values(|hop: Hop<S>| hop.result)
}

/// The metadata messages among some calls, each with the context it came with, in
/// the order of the calls.
pub open spec fn messages<S>(hops: Seq<Hop<S>>) -> Seq<(ExecutionContext, MetadataMessage)>
    decreases hops.len(),
{
    if hops.len() == 0 {
        Seq::empty()
    } else {
        let earlier = messages(hops.drop_last());
        match hops.last().event {
            Event::Metadata(ctx, message) => earlier.push((ctx, message)),
            Event::Batch(_, _) => earlier,
        }
    }
}

/// `conducted`, for calls of the callbacks `produce` and `meta_send` themselves.
pub open spec fn ran<S, P: ProduceFn<S>, M: MetaSendFn<S>>(
    produce: P,
    meta_send: M,
    schema: Schema,
    start: S,
    hops: Seq<Hop<S>>,
    end: S,
    result: Result<(), ExecError>,
) -> bool {
    conducted(
        |c: ExecutionContext, b: BatchView, s: S, t: S, r: Result<(), ExecError>|
            produce.produces(c, b, s, t, r),
        |c: ExecutionContext, m: MetadataMessage, s: S, t: S, r: Result<(), ExecError>|
            meta_send.sends(c, m, s, t, r),
        schema,
        start,
        hops,
        end,
        result,
    )
}

/// The callback through which a node hands batches to whoever consumes them.
/// It writes to a state of type `S` that the caller of `run` owns.
pub trait ProduceFn<S> {
    /// Whether a call with `ctx` and `batch` may take the state from `before` to
    /// `after` and return `result`. An implementation that states nothing allows
    /// everything.
    open spec fn produces(
        &self,
        ctx: ExecutionContext,
        batch: BatchView,
        before: S,
        after: S,
        result: Result<(), ExecError>,
    ) -> bool {
        true
    }

    fn produce(&self, ctx: &ExecutionContext, batch: Batch, state: &mut S) -> (result: Result<
        (),
        ExecError,
    >)
        ensures
            self.produces(*ctx, batch@, *old(state), *final(state), result),
    ;
}

/// The callback through which a node hands metadata messages on.
pub trait MetaSendFn<S> {
    /// Whether a call with `ctx` and `message` may take the state from `before` to
    /// `after` and return `result`. An implementation that states nothing allows
    /// everything.
    open spec fn sends(
        &self,
        ctx: ExecutionContext,
        message: MetadataMessage,
        before: S,
        after: S,
        result: Result<(), ExecError>,
    ) -> bool {
        true
    }

    fn meta_send(&self, ctx: &ExecutionContext, message: MetadataMessage, state: &mut S) -> (result:
        Result<(), ExecError>)
        ensures
            self.sends(*ctx, message, *old(state), *final(state), result),
    ;
}

/// A node of a physical plan.
pub trait Node {
    /// The description that `logical_metadata` returns, the same at every call.
    /// A node that is verified says what it is; the body here only stands in for
    /// nodes that are not.
    open spec fn metadata(&self) -> NodeMetadata {
        arbitrary()
    }

    /// Whether a run of the node under `ctx` may hand over `events`, one by one,
    /// get `results` back from the callbacks, and return `result`. It says what
    /// the node itself is: what it has to hand over, and what it returns once
    /// the callbacks have answered. An implementation that states nothing
    /// allows everything.
    open spec fn runs(
        &self,
        ctx: ExecutionContext,
        events: Seq<Event>,
        results: Seq<Result<(), ExecError>>,
        result: Result<(), ExecError>,
    ) -> bool {
        true
    }

    /// The node's static description of its output.
    fn logical_metadata(&self) -> (metadata: NodeMetadata)
        ensures
            metadata == self.metadata(),
    ;

    /// Drives the node: it hands its batches to `produce` and its metadata
    /// messages to `meta_send`, in the order in which they arise, and touches
    /// `state` in no other way. Every batch has the node's declared schema. The
    /// first call that fails ends the run, which returns that call's error. What
    /// is handed over and what is returned is as `runs` says of this node.
    fn run<S, P: ProduceFn<S>, M: MetaSendFn<S>>(
        &self,
        ctx: &ExecutionContext,
        produce: &P,
        meta_send: &M,
        state: &mut S,
    ) -> (result: Result<(), ExecError>)
        ensures
            exists|hops: Seq<Hop<S>>|
                {
                    &&& #[trigger] ran(
                        *produce,
                        *meta_send,
                        *self.metadata().schema,
                        *old(state),
                        hops,
                        *final(state),
                        result,
                    )
                    &&& self.runs(*ctx, events_of(hops), results_of(hops), result)
                },
    ;
}

} // verus!
