//! A procedure's runtime argument and its resolution.
//!
//! An argument arrives in one of two admitted forms: wire data still to be
//! decoded, or an in-process value that was never encoded. Resolution
//! converts either form into a validated [`ResolvedInput`] before the
//! resolver runs; only the resolution step branches on the form, the
//! resolver never does.

use vstd::prelude::*;
use crate::{EncodedValue, InternalError};
use crate::type_def::{PrimitiveType, TypeGraph, TypeRegistry, TypeShape};

verus! {

/// The type identity of the built-in integer argument type.
pub const TYPE_ID_INT: u64 = 1;

/// The type identity of the built-in boolean argument type.
pub const TYPE_ID_BOOL: u64 = 2;

/// The type identity of the built-in text argument type.
pub const TYPE_ID_TEXT: u64 = 3;

/// An in-process argument: the recorded type identity of the stored value,
/// and the handle under which the invocation's driver holds the value
/// itself. The value never passes through an encoding.
#[derive(Clone, Copy, Debug, PartialEq, Eq, Structural)]
pub struct DirectValue {
    pub type_id: u64,
    pub handle: usize,
}

/// The two admitted forms of a procedure's runtime argument.
#[derive(Debug)]
pub enum InputValue {
    /// Encoded wire data, still to be decoded.
    Wire(EncodedValue),
    /// An already-constructed in-process value.
    Direct(DirectValue),
}

/// A resolved argument, produced by a successful resolution: wire data that
/// matched the declared argument shape, or the handle of an in-process
/// value whose recorded identity matched the declared one.
#[derive(Debug)]
pub enum ResolvedInput {
    Wire(EncodedValue),
    Direct(usize),
}

/// A value that can be handed to a procedure invocation as its argument.
/// Each implementor names which of the two admitted forms it supplies.
pub trait Argument: Sized {
    /// The form this argument resolves into.
    spec fn input_spec(self) -> InputValue;

    fn into_input(self) -> (r: InputValue)
        ensures
            r == self.input_spec(),
    ;
}

impl Argument for EncodedValue {
    open spec fn input_spec(self) -> InputValue {
        InputValue::Wire(self)
    }

    fn into_input(self) -> (r: InputValue) {
        InputValue::Wire(self)
    }
}

impl Argument for DirectValue {
    open spec fn input_spec(self) -> InputValue {
        InputValue::Direct(self)
    }

    fn into_input(self) -> (r: InputValue) {
        InputValue::Direct(self)
    }
}

/// Whether a wire value matches a declared shape. For the built-in scalar
/// shapes this is the whole decode — in particular a number must fit the
/// declared integer's range — so a resolver behind an accepted value is
/// never driven with input that fails to decode (see
/// [`ResolverInput::accepted_decodes`]). For structured shapes the check
/// is on the top-level form.
pub open spec fn shape_accepts(shape: TypeShape, v: EncodedValue) -> bool {
    match shape {
        TypeShape::Primitive(PrimitiveType::Int) => v matches EncodedValue::Num(n)
            && i32::MIN as int <= n as int <= i32::MAX as int,
        TypeShape::Primitive(PrimitiveType::Bool) => v is Bool,
        TypeShape::Primitive(PrimitiveType::Text) => v is Text,
        TypeShape::Primitive(PrimitiveType::Unit) => v is Null,
        TypeShape::Object => v is Object,
        TypeShape::Variants => v is Text || v is Object,
        TypeShape::List => v is List,
        TypeShape::Optional => true,
        TypeShape::Dictionary => v is Object,
    }
}

/// Check a wire value against a declared shape.
pub fn value_matches_shape(shape: TypeShape, v: &EncodedValue) -> (r: bool)
    ensures
        r == shape_accepts(shape, *v),
{
    match shape {
        TypeShape::Primitive(PrimitiveType::Int) => match v {
            EncodedValue::Num(n) => i32::MIN as i64 <= *n && *n <= i32::MAX as i64,
            _ => false,
        },
        TypeShape::Primitive(PrimitiveType::Bool) => matches!(v, EncodedValue::Bool(_)),
        TypeShape::Primitive(PrimitiveType::Text) => matches!(v, EncodedValue::Text(_)),
        TypeShape::Primitive(PrimitiveType::Unit) => matches!(v, EncodedValue::Null),
        TypeShape::Object => matches!(v, EncodedValue::Object(_)),
        TypeShape::Variants => matches!(v, EncodedValue::Text(_))
            || matches!(v, EncodedValue::Object(_)),
        TypeShape::List => matches!(v, EncodedValue::List(_)),
        TypeShape::Optional => true,
        TypeShape::Dictionary => matches!(v, EncodedValue::Object(_)),
    }
}

/// Argument types a resolver can declare: decodable from a wire value.
pub trait Input: Sized {
    /// The decoded value, or `None` where the wire value does not decode
    /// into this type.
    spec fn decode_spec(v: EncodedValue) -> Option<Self>;

    /// Decode a wire value into this type; failure is a deserialization
    /// error, never a panic.
    fn from_value(v: EncodedValue) -> (r: Result<Self, InternalError>)
        ensures
            match Self::decode_spec(v) {
                Some(x) => r matches Ok(y) && y == x,
                None => r matches Err(e) && e is Deserialization,
            },
    ;
}

impl Input for i32 {
    open spec fn decode_spec(v: EncodedValue) -> Option<i32> {
        match v {
            EncodedValue::Num(n) => if i32::MIN as int <= n as int <= i32::MAX as int {
                Some(n as i32)
            } else {
                None
            },
            _ => None,
        }
    }

    fn from_value(v: EncodedValue) -> (r: Result<i32, InternalError>) {
        match v {
            EncodedValue::Num(n) => {
                if i32::MIN as i64 <= n && n <= i32::MAX as i64 {
                    Ok(n as i32)
                } else {
                    Err(InternalError::Deserialization(
                        "number is out of range of the declared integer type".to_owned(),
                    ))
                }
            },
            _ => Err(InternalError::Deserialization(
                "expected a number".to_owned(),
            )),
        }
    }
}

impl Input for i64 {
    open spec fn decode_spec(v: EncodedValue) -> Option<i64> {
        match v {
            EncodedValue::Num(n) => Some(n),
            _ => None,
        }
    }

    fn from_value(v: EncodedValue) -> (r: Result<i64, InternalError>) {
        match v {
            EncodedValue::Num(n) => Ok(n),
            _ => Err(InternalError::Deserialization(
                "expected a number".to_owned(),
            )),
        }
    }
}

impl Input for bool {
    open spec fn decode_spec(v: EncodedValue) -> Option<bool> {
        match v {
            EncodedValue::Bool(b) => Some(b),
            _ => None,
        }
    }

    fn from_value(v: EncodedValue) -> (r: Result<bool, InternalError>) {
        match v {
            EncodedValue::Bool(b) => Ok(b),
            _ => Err(InternalError::Deserialization(
                "expected a boolean".to_owned(),
            )),
        }
    }
}

impl Input for String {
    open spec fn decode_spec(v: EncodedValue) -> Option<String> {
        match v {
            EncodedValue::Text(s) => Some(s),
            _ => None,
        }
    }

    fn from_value(v: EncodedValue) -> (r: Result<String, InternalError>) {
        match v {
            EncodedValue::Text(s) => Ok(s),
            _ => Err(InternalError::Deserialization(
                "expected a text value".to_owned(),
            )),
        }
    }
}

/// Argument types usable in a procedure declaration: decodable, with a
/// stable type identity, a declared shape, and a schema contribution.
pub trait ResolverInput: Input {
    /// The stable identity of this type.
    spec fn type_id_spec() -> u64;

    /// The declared structural shape of this type.
    spec fn shape_spec() -> TypeShape;

    fn type_id() -> (r: u64)
        ensures
            r == Self::type_id_spec(),
    ;

    fn shape() -> (r: TypeShape)
        ensures
            r == Self::shape_spec(),
    ;

    /// Contribute this type's schema fragment to a caller-supplied graph.
    ///
    /// Contributing a second time to the same graph is a no-op that names
    /// the same identity again, and a registry that declares this type
    /// (and, transitively, everything it depends on) guarantees success.
    fn data_type(type_map: &mut TypeGraph, reg: &TypeRegistry) -> (r: Result<u64, InternalError>)
        requires
            old(type_map).wf(),
            reg.wf(),
            old(type_map).faithful(*reg),
        ensures
            final(type_map).wf(),
            final(type_map).faithful(*reg),
            old(type_map).id_set().subset_of(final(type_map).id_set()),
            r matches Ok(nid) ==> nid == Self::type_id_spec()
                && final(type_map).has(Self::type_id_spec()),
            r matches Err(e) ==> e matches InternalError::SchemaExportUnsupported(d)
                && !reg.declares(d),
            old(type_map).has(Self::type_id_spec()) ==> r == Ok::<u64, InternalError>(
                Self::type_id_spec(),
            ) && *final(type_map) == *old(type_map),
            reg.closed() && reg.declares(Self::type_id_spec()) ==> r is Ok,
    ;

    /// Resolution is complete for this type: a wire value its declared
    /// shape accepts always decodes into it, so a resolver is never driven
    /// with input that fails to decode.
    proof fn accepted_decodes(v: EncodedValue)
        ensures
            shape_accepts(Self::shape_spec(), v) ==> Self::decode_spec(v) is Some,
    ;
}

impl ResolverInput for i32 {
    open spec fn type_id_spec() -> u64 {
        TYPE_ID_INT
    }

    open spec fn shape_spec() -> TypeShape {
        TypeShape::Primitive(PrimitiveType::Int)
    }

    fn type_id() -> (r: u64) {
        TYPE_ID_INT
    }

    fn shape() -> (r: TypeShape) {
        TypeShape::Primitive(PrimitiveType::Int)
    }

    fn data_type(type_map: &mut TypeGraph, reg: &TypeRegistry) -> (r: Result<u64, InternalError>) {
        type_map.export(reg, TYPE_ID_INT)
    }

    proof fn accepted_decodes(v: EncodedValue) {
    }
}

impl ResolverInput for bool {
    open spec fn type_id_spec() -> u64 {
        TYPE_ID_BOOL
    }

    open spec fn shape_spec() -> TypeShape {
        TypeShape::Primitive(PrimitiveType::Bool)
    }

    fn type_id() -> (r: u64) {
        TYPE_ID_BOOL
    }

    fn shape() -> (r: TypeShape) {
        TypeShape::Primitive(PrimitiveType::Bool)
    }

    fn data_type(type_map: &mut TypeGraph, reg: &TypeRegistry) -> (r: Result<u64, InternalError>) {
        type_map.export(reg, TYPE_ID_BOOL)
    }

    proof fn accepted_decodes(v: EncodedValue) {
    }
}

impl ResolverInput for String {
    open spec fn type_id_spec() -> u64 {
        TYPE_ID_TEXT
    }

    open spec fn shape_spec() -> TypeShape {
        TypeShape::Primitive(PrimitiveType::Text)
    }

    fn type_id() -> (r: u64) {
        TYPE_ID_TEXT
    }

    fn shape() -> (r: TypeShape) {
        TypeShape::Primitive(PrimitiveType::Text)
    }

    fn data_type(type_map: &mut TypeGraph, reg: &TypeRegistry) -> (r: Result<u64, InternalError>) {
        type_map.export(reg, TYPE_ID_TEXT)
    }

    proof fn accepted_decodes(v: EncodedValue) {
    }
}

} // verus!
