//! A compiled, type-erased callable unit: one query, mutation or
//! subscription endpoint.
//!
//! A [`Procedure`] is built once by a [`ProcedureBuilder`], which fixes the
//! kind and the declared argument and result type identities and surfaces a
//! missing schema declaration as a construction-time error. Invocation goes
//! through [`Procedure::exec`], the single entry point: it resolves the
//! argument — decoding wire data against the declared shape, or checking an
//! in-process value's identity — and only on success hands back a fresh
//! [`ExecutionStream`]; the resolver is never driven with invalid input.

use vstd::prelude::*;
use vstd::pervasive::unreached;
use crate::InternalError;
use crate::input::{Argument, DirectValue, InputValue, ResolvedInput, shape_accepts,
    value_matches_shape};
use crate::stream::ExecutionStream;
use crate::type_def::{TypeGraph, TypeRegistry, TypeShape};

verus! {

/// The kind of operation a procedure performs.
#[derive(Debug, Clone, Copy, PartialEq, Eq, Hash, PartialOrd, Ord, Structural)]
pub enum ProcedureType {
    Query,
    Mutation,
    Subscription,
}

/// A compiled procedure: its kind, its declared argument type (identity and
/// shape), and its declared result type. Immutable once built; `exec` takes
/// it by shared reference, so one procedure serves concurrent invocations.
#[derive(Debug, Clone, Copy, PartialEq, Eq, Structural)]
pub struct Procedure {
    pub ty: ProcedureType,
    pub input_ty: u64,
    pub input_shape: TypeShape,
    pub result_ty: u64,
}

/// The exported schema of one procedure under its router key.
#[derive(Debug)]
pub struct ProcedureTypeDefinition {
    pub key: String,
    pub ty: ProcedureType,
    /// The exported node identity of the argument type.
    pub input: u64,
    /// The exported node identity of the result type.
    pub result: u64,
}

/// Accumulates a procedure declaration: the kind and the declared argument
/// and result type identities.
#[derive(Debug, Clone, Copy, PartialEq, Eq, Structural)]
pub struct ProcedureBuilder {
    pub ty: Option<ProcedureType>,
    pub input_ty: Option<u64>,
    pub result_ty: Option<u64>,
}

impl ProcedureBuilder {
    /// Whether the declaration was fully given.
    pub open spec fn complete(self) -> bool {
        self.ty is Some && self.input_ty is Some && self.result_ty is Some
    }

    /// Declare a query with the given argument and result type identities.
    pub fn query(self, input_ty: u64, result_ty: u64) -> (r: ProcedureBuilder)
        ensures
            r == (ProcedureBuilder {
                ty: Some(ProcedureType::Query),
                input_ty: Some(input_ty),
                result_ty: Some(result_ty),
            }),
    {
        ProcedureBuilder {
            ty: Some(ProcedureType::Query),
            input_ty: Some(input_ty),
            result_ty: Some(result_ty),
        }
    }

    /// Declare a mutation with the given argument and result type identities.
    pub fn mutation(self, input_ty: u64, result_ty: u64) -> (r: ProcedureBuilder)
        ensures
            r == (ProcedureBuilder {
                ty: Some(ProcedureType::Mutation),
                input_ty: Some(input_ty),
                result_ty: Some(result_ty),
            }),
    {
        ProcedureBuilder {
            ty: Some(ProcedureType::Mutation),
            input_ty: Some(input_ty),
            result_ty: Some(result_ty),
        }
    }

    /// Declare a subscription with the given argument and result type
    /// identities.
    pub fn subscription(self, input_ty: u64, result_ty: u64) -> (r: ProcedureBuilder)
        ensures
            r == (ProcedureBuilder {
                ty: Some(ProcedureType::Subscription),
                input_ty: Some(input_ty),
                result_ty: Some(result_ty),
            }),
    {
        ProcedureBuilder {
            ty: Some(ProcedureType::Subscription),
            input_ty: Some(input_ty),
            result_ty: Some(result_ty),
        }
    }

    /// Compile the declaration into an immutable [`Procedure`]. A declared
    /// type with no schema declaration is a construction-time error, not a
    /// call-time one.
    pub fn build(self, reg: &TypeRegistry) -> (r: Result<Procedure, InternalError>)
        requires
            self.complete(),
            reg.wf(),
        ensures
            match r {
                Ok(p) => {
                    &&& reg.declares(self.input_ty->0)
                    &&& reg.declares(self.result_ty->0)
                    &&& p.ty == self.ty->0
                    &&& p.input_ty == self.input_ty->0
                    &&& p.input_shape == reg.decl_of(self.input_ty->0).shape
                    &&& p.result_ty == self.result_ty->0
                },
                Err(e) => {
                    &&& e matches InternalError::SchemaExportUnsupported(d)
                    &&& !reg.declares(d)
                    &&& (d == self.input_ty->0 || d == self.result_ty->0)
                },
            },
    {
        let ty = match self.ty {
            Some(t) => t,
            None => unreached(),
        };
        let input_ty = match self.input_ty {
            Some(t) => t,
            None => unreached(),
        };
        let result_ty = match self.result_ty {
            Some(t) => t,
            None => unreached(),
        };
        let input_decl = match reg.get(input_ty) {
            Some(d) => d,
            None => {
                return Err(InternalError::SchemaExportUnsupported(input_ty));
            },
        };
        if !reg.contains(result_ty) {
            return Err(InternalError::SchemaExportUnsupported(result_ty));
        }
        Ok(Procedure { ty, input_ty, input_shape: input_decl.shape, result_ty })
    }
}

impl Procedure {
    /// Begin declaring a procedure.
    pub fn builder() -> (r: ProcedureBuilder)
        ensures
            r == (ProcedureBuilder {
                ty: None::<ProcedureType>,
                input_ty: None::<u64>,
                result_ty: None::<u64>,
            }),
    {
        ProcedureBuilder { ty: None, input_ty: None, result_ty: None }
    }

    /// Export this procedure's argument and result types — with their
    /// transitive dependencies — into a caller-supplied graph, and return
    /// the procedure's schema under its router key. Repeated calls against
    /// the same graph re-add nothing and name the same node identities.
    ///
    /// Against a closed registry that declares both types this always
    /// succeeds; `build` already checked the declarations against the
    /// registry the procedure was built from, so the error arises only
    /// with another registry, or with one whose declarations name
    /// undeclared dependencies.
    pub fn types(&self, key: String, type_map: &mut TypeGraph, reg: &TypeRegistry) -> (r: Result<
        ProcedureTypeDefinition,
        InternalError,
    >)
        requires
            old(type_map).wf(),
            reg.wf(),
            old(type_map).faithful(*reg),
        ensures
            final(type_map).wf(),
            final(type_map).faithful(*reg),
            old(type_map).id_set().subset_of(final(type_map).id_set()),
            match r {
                Ok(d) => {
                    &&& d.key@ == key@
                    &&& d.ty == self.ty
                    &&& d.input == self.input_ty
                    &&& d.result == self.result_ty
                    &&& final(type_map).has(self.input_ty)
                    &&& final(type_map).has(self.result_ty)
                },
                Err(e) => e matches InternalError::SchemaExportUnsupported(d) && !reg.declares(d),
            },
            reg.closed() && reg.declares(self.input_ty) && reg.declares(self.result_ty)
                ==> r is Ok,
    {
        let ghost g0 = *type_map;
        let input = match type_map.export(reg, self.input_ty) {
            Ok(i) => i,
            Err(e) => {
                return Err(e);
            },
        };
        let ghost g1 = *type_map;
        let result = match type_map.export(reg, self.result_ty) {
            Ok(i) => i,
            Err(e) => {
                return Err(e);
            },
        };
        proof {
            crate::type_def::lemma_graph_has_preserved(g1, *type_map, self.input_ty);
        }
        Ok(ProcedureTypeDefinition { key, ty: self.ty, input, result })
    }

    /// Execute the procedure with the given argument: the single entry
    /// point for both wire-borne and in-process arguments.
    ///
    /// Resolution failures are returned synchronously and the resolver is
    /// never driven: malformed wire data is a deserialization error, an
    /// in-process value with the wrong recorded identity a type mismatch.
    /// On success the returned stream carries the validated argument for
    /// the invocation's driver.
    pub fn exec<A: Argument>(&self, input: A) -> (r: Result<ExecutionStream, InternalError>)
        ensures
            match input.input_spec() {
                InputValue::Wire(v) => {
                    if shape_accepts(self.input_shape, v) {
                        r matches Ok(s) && s.kind == self.ty && s.state is Idle
                            && s.pending is None
                            && s.resolved == Some(ResolvedInput::Wire(v))
                    } else {
                        r matches Err(e) && e is Deserialization
                    }
                },
                InputValue::Direct(d) => {
                    if d.type_id == self.input_ty {
                        r matches Ok(s) && s.kind == self.ty && s.state is Idle
                            && s.pending is None
                            && s.resolved == Some(ResolvedInput::Direct(d.handle))
                    } else {
                        r matches Err(e) && e is TypeMismatch
                    }
                },
            },
    {
        match input.into_input() {
            InputValue::Wire(v) => {
                if value_matches_shape(self.input_shape, &v) {
                    Ok(ExecutionStream::new(self.ty, ResolvedInput::Wire(v)))
                } else {
                    Err(InternalError::Deserialization(
                        "wire value does not match the declared argument shape".to_owned(),
                    ))
                }
            },
            InputValue::Direct(d) => {
                if d.type_id == self.input_ty {
                    Ok(ExecutionStream::new(self.ty, ResolvedInput::Direct(d.handle)))
                } else {
                    Err(InternalError::TypeMismatch)
                }
            },
        }
    }
}

} // verus!
