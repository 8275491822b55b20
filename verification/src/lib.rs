//! Core of a typed remote-procedure framework.
//!
//! A procedure is declared with a typed argument and result, erased into a
//! uniform runtime representation, registered in a [`router::Router`] under a
//! key, and invoked against a request. Invocation resolves the argument
//! (either from wire data or from an in-process value), and the result comes
//! back as an [`stream::ExecutionStream`]: a pull-driven sequence of encoded
//! values or errors. A companion type graph ([`type_def::TypeGraph`]) derives
//! a language-neutral schema for every procedure's argument and result so
//! client bindings can be generated.

use vstd::prelude::*;

pub mod input;
pub mod layer;
pub mod procedure;
pub mod router;
pub mod stream;
pub mod type_def;

verus! {

/// A language-neutral model of an encoded wire value.
///
/// The transport layer converts its concrete encoding (for example a JSON
/// document) into this shape before handing it to the core, and converts it
/// back when sending results out.
#[derive(Debug, PartialEq, Eq)]
pub enum EncodedValue {
    Null,
    Bool(bool),
    Num(i64),
    Text(String),
    List(Vec<EncodedValue>),
    Object(Vec<(String, EncodedValue)>),
}

/// A construction or resolution failure that is never caused by user
/// resolver logic. These are returned synchronously, never through a stream.
#[derive(Debug)]
pub enum InternalError {
    /// Wire input could not be decoded into the declared argument type.
    /// Carries a human-readable cause.
    Deserialization(String),
    /// An in-process argument's recorded type identity does not match the
    /// declared argument type's identity.
    TypeMismatch,
    /// A router key was registered twice. Carries the duplicated key.
    DuplicateKey(String),
    /// Two merged routers define the same key. Carries the colliding key.
    KeyCollision(String),
    /// A type has no schema declaration, so it cannot be exported.
    /// Carries the undeclared type identity.
    SchemaExportUnsupported(u64),
}

/// The opaque failure payload a resolver reports. The core preserves it
/// without interpreting it.
#[derive(Debug)]
pub struct ResolverError {
    pub message: String,
}

/// A per-invocation failure surfaced through the stream, never as a
/// synchronous return.
#[derive(Debug)]
pub enum ExecError {
    /// The resolver's own reported failure, payload preserved.
    Resolver(ResolverError),
    /// A produced value could not be converted to the result schema's
    /// encoded form. Carries a human-readable cause.
    Encoding(String),
}

} // verus!
