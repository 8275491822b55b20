//! Composable middleware around a procedure invocation.
//!
//! A [`Layer`] is a typed step from (context, input, request metadata) to an
//! execution stream — or to a synchronous failure. Heterogeneous chains are
//! composed through the type-erased calling convention [`dyn_call`], which
//! always hands back a stream: a synchronous failure becomes a stream whose
//! one item is that failure, so the erased interface's success path stays
//! uniform while the error is preserved as a stream item.

use vstd::prelude::*;
use crate::{EncodedValue, ExecError};
use crate::input::ResolvedInput;
use crate::procedure::ProcedureType;
use crate::stream::ExecutionStream;

verus! {

/// Request metadata handed through a middleware chain: the kind of the
/// procedure being invoked and the key it was dispatched under.
#[derive(Debug)]
pub struct RequestContext {
    pub kind: ProcedureType,
    pub path: String,
}

/// One typed middleware step, generic over the context type it consumes.
/// Each individual layer is written with full static typing; erasure
/// happens only at layer boundaries, through [`dyn_call`].
pub trait Layer<TCtx>: Sized {
    /// What the step does, as the relation the implementation fixes.
    spec fn layer_spec(&self, ctx: TCtx, input: EncodedValue, req: RequestContext) -> Result<
        ExecutionStream,
        ExecError,
    >;

    /// Run the step: hand back the invocation's stream, or fail
    /// synchronously.
    fn layer_call(&self, ctx: TCtx, input: EncodedValue, req: RequestContext) -> (r: Result<
        ExecutionStream,
        ExecError,
    >)
        ensures
            r == self.layer_spec(ctx, input, req),
    ;
}

/// The innermost layer: wraps a resolver invocation into the uniform shape
/// by starting a fresh stream of the request's kind, carrying the input for
/// the resolver's driver.
#[derive(Debug, Clone, Copy, PartialEq, Eq, Structural)]
pub struct ResolverLayer {}

impl<TCtx> Layer<TCtx> for ResolverLayer {
    open spec fn layer_spec(&self, ctx: TCtx, input: EncodedValue, req: RequestContext) -> Result<
        ExecutionStream,
        ExecError,
    > {
        Ok(
            ExecutionStream {
                kind: req.kind,
                resolved: Some(ResolvedInput::Wire(input)),
                state: crate::stream::StreamState::Idle,
                pending: None,
            },
        )
    }

    fn layer_call(&self, ctx: TCtx, input: EncodedValue, req: RequestContext) -> (r: Result<
        ExecutionStream,
        ExecError,
    >) {
        Ok(ExecutionStream::new(req.kind, ResolvedInput::Wire(input)))
    }
}

/// Derives an inner context from an outer one: the typed transformation an
/// outer middleware step performs before delegating inward.
pub trait ContextMap<TOuter>: Sized {
    /// The context type handed to the inner layer.
    type Inner;

    /// The derived context, as the relation the implementation fixes.
    spec fn map_spec(&self, ctx: TOuter) -> Self::Inner;

    fn derive(&self, ctx: TOuter) -> (r: Self::Inner)
        ensures
            r == self.map_spec(ctx),
    ;
}

/// The transformation that passes the context through unchanged.
#[derive(Debug, Clone, Copy, PartialEq, Eq, Structural)]
pub struct IdentityContext {}

impl<T> ContextMap<T> for IdentityContext {
    type Inner = T;

    open spec fn map_spec(&self, ctx: T) -> T {
        ctx
    }

    fn derive(&self, ctx: T) -> (r: T) {
        ctx
    }
}

/// An outer middleware step: derives the inner context — attaching session
/// data, say — before delegating to the inner layer. Layers nest with full
/// static typing; the erasure point is the layer boundary ([`dyn_call`]),
/// never the inside of a composition.
#[derive(Debug, Clone, Copy, PartialEq, Eq)]
pub struct MapContextLayer<M, L> {
    pub map: M,
    pub inner: L,
}

impl<TOuter, M: ContextMap<TOuter>, L: Layer<M::Inner>> Layer<TOuter> for MapContextLayer<M, L> {
    open spec fn layer_spec(&self, ctx: TOuter, input: EncodedValue, req: RequestContext) -> Result<
        ExecutionStream,
        ExecError,
    > {
        self.inner.layer_spec(self.map.map_spec(ctx), input, req)
    }

    fn layer_call(&self, ctx: TOuter, input: EncodedValue, req: RequestContext) -> (r: Result<
        ExecutionStream,
        ExecError,
    >) {
        self.inner.layer_call(self.map.derive(ctx), input, req)
    }
}

/// The type-erased calling convention over any layer: always a stream,
/// never a synchronous error. Where the typed call fails synchronously, the
/// error comes back as the one item of an already-terminal stream instead
/// of being propagated raw.
pub fn dyn_call<TCtx, L: Layer<TCtx>>(
    layer: &L,
    ctx: TCtx,
    input: EncodedValue,
    req: RequestContext,
) -> (s: ExecutionStream)
    ensures
        match layer.layer_spec(ctx, input, req) {
            Ok(st) => s == st,
            Err(e) => {
                &&& s.kind == req.kind
                &&& s.state is Faulted
                &&& s.resolved is None
                &&& s.pending == Some(Err::<EncodedValue, ExecError>(e))
            },
        },
{
    let kind = req.kind;
    match layer.layer_call(ctx, input, req) {
        Ok(st) => st,
        Err(e) => ExecutionStream::with_error(kind, e),
    }
}

} // verus!
