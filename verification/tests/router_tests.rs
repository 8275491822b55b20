use rspc::procedure::{Procedure, ProcedureType};
use rspc::router::Router;
use rspc::type_def::{PrimitiveType, TypeDecl, TypeRegistry, TypeShape};
use rspc::InternalError;

fn int_registry() -> TypeRegistry {
    let mut reg = TypeRegistry::new();
    let fresh = reg.declare(TypeDecl {
        id: rspc::input::TYPE_ID_INT,
        name: "number".to_string(),
        shape: TypeShape::Primitive(PrimitiveType::Int),
        deps: Vec::new(),
        exportable: false,
    });
    assert!(fresh);
    reg
}

fn ping_procedure() -> Procedure {
    let reg = int_registry();
    Procedure::builder()
        .query(rspc::input::TYPE_ID_INT, rspc::input::TYPE_ID_INT)
        .build(&reg)
        .unwrap()
}

#[test]
fn procedure_registers_under_key() {
    let router = Router::new()
        .procedure("ping".to_string(), ping_procedure())
        .unwrap();
    assert_eq!(router.len(), 1);
    assert!(router.contains_key(&"ping".to_string()));
    assert!(!router.contains_key(&"pong".to_string()));
}

#[test]
fn duplicate_key_is_a_construction_error() {
    let router = Router::new()
        .procedure("ping".to_string(), ping_procedure())
        .unwrap();
    let err = router
        .procedure("ping".to_string(), ping_procedure())
        .unwrap_err();
    match err {
        InternalError::DuplicateKey(k) => assert_eq!(k, "ping"),
        other => panic!("expected DuplicateKey, got {:?}", other),
    }
}

#[test]
fn merge_of_disjoint_routers_preserves_both() {
    // two routers each registering "ping" under different namespaces
    let a = Router::new()
        .procedure("a.ping".to_string(), ping_procedure())
        .unwrap();
    let b = Router::new()
        .procedure("b.ping".to_string(), ping_procedure())
        .unwrap();
    let merged = a.merge(b).unwrap();
    assert_eq!(merged.len(), 2);
    assert!(merged.get(&"a.ping".to_string()).is_some());
    assert!(merged.get(&"b.ping".to_string()).is_some());
}

#[test]
fn merge_with_colliding_key_fails_naming_the_key() {
    let a = Router::new()
        .procedure("ping".to_string(), ping_procedure())
        .unwrap();
    let b = Router::new()
        .procedure("ping".to_string(), ping_procedure())
        .unwrap();
    let err = a.merge(b).unwrap_err();
    match err {
        InternalError::KeyCollision(k) => assert_eq!(k, "ping"),
        other => panic!("expected KeyCollision, got {:?}", other),
    }
}

#[test]
fn merge_keeps_entries_in_registration_order() {
    let a = Router::new()
        .procedure("one".to_string(), ping_procedure())
        .unwrap()
        .procedure("two".to_string(), ping_procedure())
        .unwrap();
    let b = Router::new()
        .procedure("three".to_string(), ping_procedure())
        .unwrap();
    let merged = a.merge(b).unwrap();
    let keys: Vec<&str> = merged.iter().iter().map(|e| e.0.as_str()).collect();
    assert_eq!(keys, vec!["one", "two", "three"]);
}

#[test]
fn merge_with_empty_router_is_identity_on_entries() {
    let a = Router::new()
        .procedure("ping".to_string(), ping_procedure())
        .unwrap();
    let merged = a.merge(Router::new()).unwrap();
    assert_eq!(merged.len(), 1);
    assert!(merged.get(&"ping".to_string()).is_some());
}

#[test]
fn lookup_finds_the_registered_procedure() {
    let reg = int_registry();
    let q = Procedure::builder()
        .query(rspc::input::TYPE_ID_INT, rspc::input::TYPE_ID_INT)
        .build(&reg)
        .unwrap();
    let m = Procedure::builder()
        .mutation(rspc::input::TYPE_ID_INT, rspc::input::TYPE_ID_INT)
        .build(&reg)
        .unwrap();
    let router = Router::new()
        .procedure("q".to_string(), q)
        .unwrap()
        .procedure("m".to_string(), m)
        .unwrap();
    assert_eq!(router.get(&"q".to_string()).unwrap().ty, ProcedureType::Query);
    assert_eq!(router.get(&"m".to_string()).unwrap().ty, ProcedureType::Mutation);
    assert!(router.get(&"s".to_string()).is_none());
}

#[test]
fn from_entries_lets_a_later_entry_replace_an_earlier_one() {
    let reg = int_registry();
    let q = Procedure::builder()
        .query(rspc::input::TYPE_ID_INT, rspc::input::TYPE_ID_INT)
        .build(&reg)
        .unwrap();
    let m = Procedure::builder()
        .mutation(rspc::input::TYPE_ID_INT, rspc::input::TYPE_ID_INT)
        .build(&reg)
        .unwrap();
    let router = Router::from_entries(vec![
        ("ping".to_string(), q),
        ("ping".to_string(), m),
    ]);
    assert_eq!(router.len(), 1);
    assert_eq!(
        router.get(&"ping".to_string()).unwrap().ty,
        ProcedureType::Mutation
    );
}

#[test]
fn into_entries_hands_the_table_back_in_order() {
    let router = Router::new()
        .procedure("a".to_string(), ping_procedure())
        .unwrap()
        .procedure("b".to_string(), ping_procedure())
        .unwrap();
    let entries = router.into_entries();
    let keys: Vec<&str> = entries.iter().map(|e| e.0.as_str()).collect();
    assert_eq!(keys, vec!["a", "b"]);
}
