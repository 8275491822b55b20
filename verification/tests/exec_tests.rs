use rspc::input::{DirectValue, Input, ResolvedInput, ResolverInput, TYPE_ID_INT};
use rspc::layer::{dyn_call, IdentityContext, Layer, MapContextLayer, RequestContext,
    ResolverLayer};
use rspc::procedure::{Procedure, ProcedureType};
use rspc::stream::{ExecutionStream, ResolverEvent, ResolverItem, StreamState};
use rspc::type_def::{PrimitiveType, TypeDecl, TypeGraph, TypeRegistry, TypeShape};
use rspc::{EncodedValue, ExecError, InternalError, ResolverError};

fn int_registry() -> TypeRegistry {
    let mut reg = TypeRegistry::new();
    assert!(reg.declare(TypeDecl {
        id: TYPE_ID_INT,
        name: "number".to_string(),
        shape: TypeShape::Primitive(PrimitiveType::Int),
        deps: Vec::new(),
        exportable: false,
    }));
    reg
}

fn double_procedure() -> Procedure {
    let reg = int_registry();
    Procedure::builder()
        .query(TYPE_ID_INT, TYPE_ID_INT)
        .build(&reg)
        .unwrap()
}

/// Drive a resolved invocation like a transport would: decode the wire
/// argument the way the resolver declares it, compute, feed the one
/// result, and collect everything the stream hands out.
fn run_double(stream: &mut ExecutionStream) -> Vec<Result<EncodedValue, ExecError>> {
    let wire = match stream.resolved.as_ref().unwrap() {
        ResolvedInput::Wire(EncodedValue::Num(n)) => EncodedValue::Num(*n),
        other => panic!("numeric wire input expected, got {:?}", other),
    };
    let arg = i32::from_value(wire).unwrap();
    let doubled = arg * 2;
    let mut items = Vec::new();
    stream.feed(ResolverEvent::Item(ResolverItem::Value(Ok(EncodedValue::Num(
        doubled as i64,
    )))));
    while let Some(item) = stream.poll_next() {
        items.push(item);
    }
    items
}

#[test]
fn double_query_yields_exactly_one_ok_item() {
    let procedure = double_procedure();
    let mut stream = procedure.exec(EncodedValue::Num(21)).unwrap();
    let items = run_double(&mut stream);
    assert_eq!(items.len(), 1);
    match &items[0] {
        Ok(EncodedValue::Num(n)) => assert_eq!(*n, 42),
        other => panic!("expected Ok(42), got {:?}", other),
    }
    assert_eq!(stream.state, StreamState::Completed);
    // the stream is done: further resolver steps produce nothing
    stream.feed(ResolverEvent::Item(ResolverItem::Value(Ok(EncodedValue::Num(0)))));
    assert!(stream.poll_next().is_none());
}

#[test]
fn out_of_range_number_fails_synchronously() {
    // resolution completes the decode: a number outside the declared
    // integer's range never reaches the resolver
    let procedure = double_procedure();
    match procedure.exec(EncodedValue::Num(1 << 40)) {
        Err(InternalError::Deserialization(_)) => {}
        other => panic!("expected Deserialization, got {:?}", other),
    }
}

#[test]
fn context_transforming_layer_delegates_inward() {
    let layer = MapContextLayer { map: IdentityContext {}, inner: ResolverLayer {} };
    let stream = dyn_call(
        &layer,
        7u32,
        EncodedValue::Num(3),
        RequestContext { kind: ProcedureType::Query, path: "double".to_string() },
    );
    assert_eq!(stream.state, StreamState::Idle);
    match stream.resolved {
        Some(ResolvedInput::Wire(EncodedValue::Num(n))) => assert_eq!(n, 3),
        other => panic!("expected the wire input, got {:?}", other),
    }
}

#[test]
fn malformed_wire_input_fails_synchronously() {
    let procedure = double_procedure();
    // a string where a number is expected: a synchronous deserialization
    // error, never a stream
    match procedure.exec(EncodedValue::Text("twenty-one".to_string())) {
        Err(InternalError::Deserialization(_)) => {}
        other => panic!("expected Deserialization, got {:?}", other),
    }
}

#[test]
fn query_resolver_failure_yields_exactly_one_error_item() {
    let procedure = double_procedure();
    let mut stream = procedure.exec(EncodedValue::Num(21)).unwrap();
    stream.feed(ResolverEvent::Item(ResolverItem::Error(ResolverError {
        message: "boom".to_string(),
    })));
    match stream.poll_next() {
        Some(Err(ExecError::Resolver(e))) => assert_eq!(e.message, "boom"),
        other => panic!("expected a resolver error item, got {:?}", other),
    }
    assert_eq!(stream.state, StreamState::Faulted);
    stream.feed(ResolverEvent::Item(ResolverItem::Value(Ok(EncodedValue::Num(1)))));
    assert!(stream.poll_next().is_none());
}

#[test]
fn encoding_failure_is_distinguished_from_resolver_failure() {
    let procedure = double_procedure();
    let mut stream = procedure.exec(EncodedValue::Num(21)).unwrap();
    stream.feed(ResolverEvent::Item(ResolverItem::Value(Err(
        "not representable".to_string(),
    ))));
    match stream.poll_next() {
        Some(Err(ExecError::Encoding(m))) => assert_eq!(m, "not representable"),
        other => panic!("expected an encoding error item, got {:?}", other),
    }
}

#[test]
fn in_process_value_with_matching_identity_bypasses_decoding() {
    let procedure = double_procedure();
    let stream = procedure
        .exec(DirectValue { type_id: TYPE_ID_INT, handle: 5 })
        .unwrap();
    match stream.resolved {
        Some(ResolvedInput::Direct(handle)) => assert_eq!(handle, 5),
        other => panic!("expected a direct resolution, got {:?}", other),
    }
}

#[test]
fn in_process_value_with_wrong_identity_is_a_type_mismatch() {
    let procedure = double_procedure();
    match procedure.exec(DirectValue { type_id: 999, handle: 5 }) {
        Err(InternalError::TypeMismatch) => {}
        other => panic!("expected TypeMismatch, got {:?}", other),
    }
}

#[test]
fn subscription_passes_per_event_errors_through_in_order() {
    let reg = int_registry();
    let procedure = Procedure::builder()
        .subscription(TYPE_ID_INT, TYPE_ID_INT)
        .build(&reg)
        .unwrap();
    let mut stream = procedure.exec(EncodedValue::Num(0)).unwrap();
    let mut items = Vec::new();
    // two per-event errors followed by one success: all three arrive, in
    // emission order, without early termination
    for message in ["first", "second"] {
        stream.feed(ResolverEvent::Item(ResolverItem::Error(ResolverError {
            message: message.to_string(),
        })));
        items.push(stream.poll_next().unwrap());
    }
    stream.feed(ResolverEvent::Item(ResolverItem::Value(Ok(EncodedValue::Num(7)))));
    items.push(stream.poll_next().unwrap());
    assert_eq!(items.len(), 3);
    match &items[0] {
        Err(ExecError::Resolver(e)) => assert_eq!(e.message, "first"),
        other => panic!("expected a resolver error, got {:?}", other),
    }
    match &items[1] {
        Err(ExecError::Resolver(e)) => assert_eq!(e.message, "second"),
        other => panic!("expected a resolver error, got {:?}", other),
    }
    match &items[2] {
        Ok(EncodedValue::Num(n)) => assert_eq!(*n, 7),
        other => panic!("expected Ok(7), got {:?}", other),
    }
    assert_eq!(stream.state, StreamState::Producing);
    stream.feed(ResolverEvent::Finished);
    assert_eq!(stream.state, StreamState::Completed);
}

#[test]
fn cancellation_releases_the_buffered_item_and_silences_the_stream() {
    let reg = int_registry();
    let procedure = Procedure::builder()
        .subscription(TYPE_ID_INT, TYPE_ID_INT)
        .build(&reg)
        .unwrap();
    let mut stream = procedure.exec(EncodedValue::Num(0)).unwrap();
    stream.feed(ResolverEvent::Item(ResolverItem::Value(Ok(EncodedValue::Num(1)))));
    stream.cancel();
    assert_eq!(stream.state, StreamState::Cancelled);
    assert!(stream.poll_next().is_none());
    stream.feed(ResolverEvent::Item(ResolverItem::Value(Ok(EncodedValue::Num(2)))));
    assert!(stream.poll_next().is_none());
}

#[test]
fn builder_surfaces_a_missing_schema_at_construction_time() {
    let reg = TypeRegistry::new();
    match Procedure::builder().query(TYPE_ID_INT, TYPE_ID_INT).build(&reg) {
        Err(InternalError::SchemaExportUnsupported(d)) => assert_eq!(d, TYPE_ID_INT),
        other => panic!("expected SchemaExportUnsupported, got {:?}", other),
    }
}

#[test]
fn types_exports_the_argument_and_result_schemas() {
    let procedure = double_procedure();
    let reg = int_registry();
    let mut graph = TypeGraph::new();
    let def = procedure
        .types("double".to_string(), &mut graph, &reg)
        .unwrap();
    assert_eq!(def.key, "double");
    assert_eq!(def.ty, ProcedureType::Query);
    assert_eq!(def.input, TYPE_ID_INT);
    assert_eq!(def.result, TYPE_ID_INT);
    assert!(graph.get(TYPE_ID_INT).is_some());
    assert_eq!(graph.len(), 1);
}

#[test]
fn integer_decoding_rejects_out_of_range_and_non_numbers() {
    assert_eq!(i32::from_value(EncodedValue::Num(21)).unwrap(), 21);
    assert!(matches!(
        i32::from_value(EncodedValue::Num(1 << 40)),
        Err(InternalError::Deserialization(_))
    ));
    assert!(matches!(
        i32::from_value(EncodedValue::Bool(true)),
        Err(InternalError::Deserialization(_))
    ));
    assert_eq!(bool::from_value(EncodedValue::Bool(true)).unwrap(), true);
    assert_eq!(
        String::from_value(EncodedValue::Text("hi".to_string())).unwrap(),
        "hi"
    );
    assert_eq!(i64::from_value(EncodedValue::Num(1 << 40)).unwrap(), 1 << 40);
}

#[test]
fn optional_shape_accepts_null_wire_input() {
    let mut reg = TypeRegistry::new();
    assert!(reg.declare(TypeDecl {
        id: 50,
        name: "MaybeNumber".to_string(),
        shape: TypeShape::Optional,
        deps: Vec::new(),
        exportable: true,
    }));
    let procedure = Procedure::builder().query(50, 50).build(&reg).unwrap();
    assert!(procedure.exec(EncodedValue::Null).is_ok());
    assert!(procedure.exec(EncodedValue::Num(3)).is_ok());
}

#[test]
fn resolver_input_contributes_its_schema_once() {
    let reg = int_registry();
    let mut graph = TypeGraph::new();
    assert_eq!(<i32 as ResolverInput>::type_id(), TYPE_ID_INT);
    assert_eq!(
        <i32 as ResolverInput>::shape(),
        TypeShape::Primitive(PrimitiveType::Int)
    );
    let first = <i32 as ResolverInput>::data_type(&mut graph, &reg).unwrap();
    let second = <i32 as ResolverInput>::data_type(&mut graph, &reg).unwrap();
    assert_eq!(first, TYPE_ID_INT);
    assert_eq!(first, second);
    assert_eq!(graph.len(), 1);
    assert_eq!(graph.get(TYPE_ID_INT).unwrap().name, "number");
}

#[test]
fn structured_shapes_validate_structured_wire_values() {
    let mut reg = TypeRegistry::new();
    assert!(reg.declare(TypeDecl {
        id: 60,
        name: "Numbers".to_string(),
        shape: TypeShape::List,
        deps: Vec::new(),
        exportable: true,
    }));
    let procedure = Procedure::builder().query(60, 60).build(&reg).unwrap();
    let ok = procedure.exec(EncodedValue::List(vec![
        EncodedValue::Num(1),
        EncodedValue::Num(2),
    ]));
    assert!(ok.is_ok());
    assert!(matches!(
        procedure.exec(EncodedValue::Object(vec![(
            "k".to_string(),
            EncodedValue::Null
        )])),
        Err(InternalError::Deserialization(_))
    ));
}

#[test]
fn dyn_call_wraps_a_typed_layer_into_a_stream() {
    let layer = ResolverLayer {};
    let stream = dyn_call(
        &layer,
        (),
        EncodedValue::Num(1),
        RequestContext { kind: ProcedureType::Query, path: "double".to_string() },
    );
    assert_eq!(stream.state, StreamState::Idle);
    match stream.resolved {
        Some(ResolvedInput::Wire(EncodedValue::Num(n))) => assert_eq!(n, 1),
        other => panic!("expected the wire input, got {:?}", other),
    }
}

#[test]
fn a_synchronous_layer_failure_becomes_the_streams_one_item() {
    let mut stream = ExecutionStream::with_error(
        ProcedureType::Query,
        ExecError::Resolver(ResolverError { message: "denied".to_string() }),
    );
    assert_eq!(stream.state, StreamState::Faulted);
    match stream.poll_next() {
        Some(Err(ExecError::Resolver(e))) => assert_eq!(e.message, "denied"),
        other => panic!("expected the preserved error, got {:?}", other),
    }
    assert!(stream.poll_next().is_none());
}

#[test]
fn typed_layer_call_returns_the_same_stream_dyn_call_would() {
    let layer = ResolverLayer {};
    let stream = layer
        .layer_call(
            (),
            EncodedValue::Bool(true),
            RequestContext { kind: ProcedureType::Subscription, path: "s".to_string() },
        )
        .unwrap();
    assert_eq!(stream.kind, ProcedureType::Subscription);
    assert_eq!(stream.state, StreamState::Idle);
}
