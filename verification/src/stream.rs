//! The uniform runtime object returned by every procedure invocation.
//!
//! An [`ExecutionStream`] is pull-driven: the consumer feeds it the
//! resolver's next step and polls the single adapted item out; the stream
//! buffers no more than one in-flight item and does no work between pulls.
//! A query or mutation produces exactly one item and then completes; a
//! subscription passes every resolver step through, in order, until the
//! resolver finishes or the consumer cancels.

use vstd::prelude::*;
use crate::{EncodedValue, ExecError, ResolverError};
use crate::input::ResolvedInput;
use crate::procedure::ProcedureType;

verus! {

/// The per-invocation state of a stream.
#[derive(Clone, Copy, Debug, PartialEq, Eq, Structural)]
pub enum StreamState {
    /// Created, nothing produced yet.
    Idle,
    /// A subscription that has produced at least one item.
    Producing,
    /// Terminal: the invocation ran to completion.
    Completed,
    /// Terminal: the one produced item was an error record.
    Faulted,
    /// Terminal: the consumer released the stream before completion.
    Cancelled,
}

/// One value the resolver handed back, together with what encoding it made
/// of it: the encoded form, or the encoder's failure message.
#[derive(Debug)]
pub enum ResolverItem {
    /// The resolver produced a value; the payload is the outcome of
    /// converting it to the result schema's encoded form.
    Value(Result<EncodedValue, String>),
    /// The resolver reported a failure of its own.
    Error(ResolverError),
}

/// One step of the resolver driving a stream.
#[derive(Debug)]
pub enum ResolverEvent {
    /// The resolver produced one item.
    Item(ResolverItem),
    /// The resolver finished: no more items will come.
    Finished,
}

/// How one resolver item leaves this layer: an encoded value, an encoding
/// failure, or the resolver's own failure — the latter two distinguished so
/// a transport can tell "the handler returned bad data" from "the framework
/// failed to encode valid data".
pub open spec fn adapt_spec(it: ResolverItem) -> Result<EncodedValue, ExecError> {
    match it {
        ResolverItem::Value(Ok(v)) => Ok(v),
        ResolverItem::Value(Err(m)) => Err(ExecError::Encoding(m)),
        ResolverItem::Error(e) => Err(ExecError::Resolver(e)),
    }
}

/// Adapt one resolver item into a stream item.
pub fn adapt_item(it: ResolverItem) -> (r: Result<EncodedValue, ExecError>)
    ensures
        r == adapt_spec(it),
{
    match it {
        ResolverItem::Value(Ok(v)) => Ok(v),
        ResolverItem::Value(Err(m)) => Err(ExecError::Encoding(m)),
        ResolverItem::Error(e) => Err(ExecError::Resolver(e)),
    }
}

pub open spec fn is_terminal(state: StreamState) -> bool {
    state is Completed || state is Faulted || state is Cancelled
}

/// The transition a stream of the given kind makes on one resolver event:
/// the next state, and the item (if any) it hands the consumer.
pub open spec fn stream_step(kind: ProcedureType, state: StreamState, ev: ResolverEvent) -> (
    StreamState,
    Option<Result<EncodedValue, ExecError>>,
) {
    if is_terminal(state) {
        (state, None::<Result<EncodedValue, ExecError>>)
    } else {
        match ev {
            ResolverEvent::Item(it) => {
                let item = adapt_spec(it);
                if kind is Subscription {
                    (StreamState::Producing, Some(item))
                } else if state is Idle {
                    if item is Ok {
                        (StreamState::Completed, Some(item))
                    } else {
                        (StreamState::Faulted, Some(item))
                    }
                } else {
                    (state, None::<Result<EncodedValue, ExecError>>)
                }
            },
            ResolverEvent::Finished => (
                StreamState::Completed,
                None::<Result<EncodedValue, ExecError>>,
            ),
        }
    }
}

/// The items a stream hands out over a whole sequence of resolver events,
/// in order.
pub open spec fn stream_run(
    kind: ProcedureType,
    state: StreamState,
    evs: Seq<ResolverEvent>,
) -> Seq<Result<EncodedValue, ExecError>>
    decreases evs.len(),
{
    if evs.len() == 0 {
        Seq::empty()
    } else {
        let (s2, item) = stream_step(kind, state, evs[0]);
        (match item {
            Some(x) => seq![x],
            None => Seq::empty(),
        }) + stream_run(kind, s2, evs.drop_first())
    }
}

/// The uniform handle for one invocation's forthcoming results.
#[derive(Debug)]
pub struct ExecutionStream {
    /// The kind of the procedure this invocation ran.
    pub kind: ProcedureType,
    /// The resolved argument the resolver is to be driven with; `None` for
    /// a stream that only carries an already-failed invocation.
    pub resolved: Option<ResolvedInput>,
    pub state: StreamState,
    /// At most one in-flight item, not yet pulled by the consumer.
    pub pending: Option<Result<EncodedValue, ExecError>>,
}

impl ExecutionStream {
    /// A fresh stream for a successfully resolved invocation.
    pub fn new(kind: ProcedureType, resolved: ResolvedInput) -> (r: ExecutionStream)
        ensures
            r.kind == kind,
            r.resolved == Some(resolved),
            r.state is Idle,
            r.pending is None,
    {
        ExecutionStream { kind, resolved: Some(resolved), state: StreamState::Idle, pending: None }
    }

    /// A stream that delivers exactly one error item and is already
    /// terminal: how a synchronous failure is kept inside the uniform
    /// "always a stream" interface.
    pub fn with_error(kind: ProcedureType, err: ExecError) -> (r: ExecutionStream)
        ensures
            r.kind == kind,
            r.resolved is None,
            r.state is Faulted,
            r.pending == Some(Err::<EncodedValue, ExecError>(err)),
    {
        ExecutionStream {
            kind,
            resolved: None,
            state: StreamState::Faulted,
            pending: Some(Err(err)),
        }
    }

    /// Drive the stream with the resolver's next step. The stream buffers at
    /// most one item, so the previous item must have been pulled first.
    pub fn feed(&mut self, ev: ResolverEvent)
        requires
            old(self).pending is None,
        ensures
            final(self).kind == old(self).kind,
            final(self).resolved == old(self).resolved,
            (final(self).state, final(self).pending)
                == stream_step(old(self).kind, old(self).state, ev),
    {
        if matches!(self.state, StreamState::Completed)
            || matches!(self.state, StreamState::Faulted)
            || matches!(self.state, StreamState::Cancelled)
        {
            return;
        }
        match ev {
            ResolverEvent::Item(it) => {
                let item = adapt_item(it);
                if matches!(self.kind, ProcedureType::Subscription) {
                    self.state = StreamState::Producing;
                    self.pending = Some(item);
                } else if matches!(self.state, StreamState::Idle) {
                    self.state = if item.is_ok() {
                        StreamState::Completed
                    } else {
                        StreamState::Faulted
                    };
                    self.pending = Some(item);
                }
            },
            ResolverEvent::Finished => {
                self.state = StreamState::Completed;
            },
        }
    }

    /// Pull the in-flight item, if there is one.
    pub fn poll_next(&mut self) -> (r: Option<Result<EncodedValue, ExecError>>)
        ensures
            r == old(self).pending,
            final(self).pending is None,
            final(self).kind == old(self).kind,
            final(self).resolved == old(self).resolved,
            final(self).state == old(self).state,
    {
        self.pending.take()
    }

    /// Release the stream before completion: the only cancellation signal.
    /// The buffered item (if any) is released and no item is ever handed
    /// out afterwards.
    pub fn cancel(&mut self)
        ensures
            final(self).kind == old(self).kind,
            final(self).resolved == old(self).resolved,
            final(self).state is Cancelled,
            final(self).pending is None,
    {
        self.state = StreamState::Cancelled;
        self.pending = None;
    }
}

/// A terminal stream never hands out another item, whatever the resolver
/// does — in particular, nothing follows cancellation.
pub proof fn lemma_terminal_silent(kind: ProcedureType, state: StreamState, evs: Seq<ResolverEvent>)
    requires
        is_terminal(state),
    ensures
        stream_run(kind, state, evs) =~= Seq::<Result<EncodedValue, ExecError>>::empty(),
    decreases evs.len(),
{
    if evs.len() > 0 {
        lemma_terminal_silent(kind, state, evs.drop_first());
    }
}

/// A query or mutation stream hands out at most one item over its whole
/// life, whatever the resolver does.
pub proof fn lemma_single_shot_at_most_one(
    kind: ProcedureType,
    state: StreamState,
    evs: Seq<ResolverEvent>,
)
    requires
        kind is Query || kind is Mutation,
    ensures
        stream_run(kind, state, evs).len() <= 1,
    decreases evs.len(),
{
    if evs.len() > 0 {
        let (s2, item) = stream_step(kind, state, evs[0]);
        if item is Some {
            assert(is_terminal(s2));
            lemma_terminal_silent(kind, s2, evs.drop_first());
        } else {
            lemma_single_shot_at_most_one(kind, s2, evs.drop_first());
        }
    }
}

/// A query or mutation stream whose resolver resolves — with a value or
/// with a failure — hands out exactly that one adapted item, and nothing
/// after it.
pub proof fn lemma_single_shot_exactly_one(
    kind: ProcedureType,
    evs: Seq<ResolverEvent>,
    it: ResolverItem,
)
    requires
        kind is Query || kind is Mutation,
        evs.len() > 0,
        evs[0] == ResolverEvent::Item(it),
    ensures
        stream_run(kind, StreamState::Idle, evs) =~= seq![adapt_spec(it)],
{
    let (s2, item) = stream_step(kind, StreamState::Idle, evs[0]);
    assert(is_terminal(s2));
    lemma_terminal_silent(kind, s2, evs.drop_first());
}

/// A subscription stream whose resolver emits items — for example several
/// per-event errors followed by a success — hands all of them out, adapted,
/// in emission order, without early termination.
pub proof fn lemma_subscription_in_order(state: StreamState, evs: Seq<ResolverEvent>)
    requires
        state is Idle || state is Producing,
        forall|i: int| 0 <= i < evs.len() ==> #[trigger] evs[i] is Item,
    ensures
        stream_run(ProcedureType::Subscription, state, evs) =~= Seq::new(
            evs.len(),
            |i: int| adapt_spec(evs[i]->Item_0),
        ),
    decreases evs.len(),
{
    if evs.len() > 0 {
        let (s2, item) = stream_step(ProcedureType::Subscription, state, evs[0]);
        assert(evs[0] is Item);
        assert(s2 is Producing);
        assert forall|i: int| 0 <= i < evs.drop_first().len() implies #[trigger] evs.drop_first()[i]
            is Item by {
            assert(evs.drop_first()[i] == evs[i + 1]);
        }
        lemma_subscription_in_order(s2, evs.drop_first());
    }
}

} // verus!
