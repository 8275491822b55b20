use rspc::type_def::{
    PrimitiveType, TSDependency, TSType, TypeDecl, TypeDef, TypeGraph, TypeRegistry, TypeShape,
};
use rspc::InternalError;

fn decl(id: u64, name: &str, shape: TypeShape, deps: Vec<u64>, exportable: bool) -> TypeDecl {
    TypeDecl { id, name: name.to_string(), shape, deps, exportable }
}

#[test]
fn export_records_a_node_with_the_declared_fields() {
    let mut reg = TypeRegistry::new();
    assert!(reg.declare(decl(7, "Post", TypeShape::Object, vec![], true)));
    let mut graph = TypeGraph::new();
    let id = graph.export(&reg, 7).unwrap();
    assert_eq!(id, 7);
    let node = graph.get(7).unwrap();
    assert_eq!(node.id, 7);
    assert_eq!(node.name, "Post");
    assert_eq!(node.shape, TypeShape::Object);
    assert!(node.deps.is_empty());
}

#[test]
fn exporting_twice_adds_no_node_and_names_the_same_identity() {
    let mut reg = TypeRegistry::new();
    assert!(reg.declare(decl(7, "Post", TypeShape::Object, vec![8], true)));
    assert!(reg.declare(decl(8, "Author", TypeShape::Object, vec![], true)));
    let mut graph = TypeGraph::new();
    let first = graph.export(&reg, 7).unwrap();
    let len_after_first = graph.len();
    let second = graph.export(&reg, 7).unwrap();
    assert_eq!(first, second);
    assert_eq!(graph.len(), len_after_first);
}

#[test]
fn export_pulls_in_transitive_dependencies() {
    let mut reg = TypeRegistry::new();
    assert!(reg.declare(decl(1, "A", TypeShape::Object, vec![2], true)));
    assert!(reg.declare(decl(2, "B", TypeShape::Object, vec![3], true)));
    assert!(reg.declare(decl(3, "C", TypeShape::Object, vec![], true)));
    let mut graph = TypeGraph::new();
    graph.export(&reg, 1).unwrap();
    assert_eq!(graph.len(), 3);
    assert!(graph.get(1).is_some());
    assert!(graph.get(2).is_some());
    assert!(graph.get(3).is_some());
}

#[test]
fn self_referential_export_terminates_and_records_the_self_dependency() {
    let mut reg = TypeRegistry::new();
    // a tree node referencing itself
    assert!(reg.declare(decl(10, "TreeNode", TypeShape::Object, vec![10], true)));
    let mut graph = TypeGraph::new();
    let id = graph.export(&reg, 10).unwrap();
    assert_eq!(id, 10);
    assert_eq!(graph.len(), 1);
    let node = graph.get(10).unwrap();
    assert_eq!(node.deps, vec![10]);
}

#[test]
fn mutually_referential_export_terminates_with_both_nodes() {
    let mut reg = TypeRegistry::new();
    assert!(reg.declare(decl(20, "Even", TypeShape::Object, vec![21], true)));
    assert!(reg.declare(decl(21, "Odd", TypeShape::Object, vec![20], true)));
    let mut graph = TypeGraph::new();
    graph.export(&reg, 20).unwrap();
    assert_eq!(graph.len(), 2);
    assert_eq!(graph.get(20).unwrap().deps, vec![21]);
    assert_eq!(graph.get(21).unwrap().deps, vec![20]);
}

#[test]
fn export_of_an_undeclared_type_names_the_missing_identity() {
    let reg = TypeRegistry::new();
    let mut graph = TypeGraph::new();
    match graph.export(&reg, 99) {
        Err(InternalError::SchemaExportUnsupported(d)) => assert_eq!(d, 99),
        other => panic!("expected SchemaExportUnsupported, got {:?}", other),
    }
}

#[test]
fn export_fails_on_an_undeclared_dependency() {
    let mut reg = TypeRegistry::new();
    assert!(reg.declare(decl(1, "A", TypeShape::Object, vec![99], true)));
    let mut graph = TypeGraph::new();
    match graph.export(&reg, 1) {
        Err(InternalError::SchemaExportUnsupported(d)) => assert_eq!(d, 99),
        other => panic!("expected SchemaExportUnsupported, got {:?}", other),
    }
}

#[test]
fn declaring_a_taken_identity_registers_nothing() {
    let mut reg = TypeRegistry::new();
    assert!(reg.declare(decl(1, "A", TypeShape::Object, vec![], true)));
    assert!(!reg.declare(decl(1, "B", TypeShape::Variants, vec![], true)));
    assert_eq!(reg.get(1).unwrap().name, "A");
}

#[test]
fn primitive_ts_names() {
    assert_eq!(<i32 as TSType>::name(), "number");
    assert_eq!(<bool as TSType>::name(), "boolean");
    assert_eq!(<String as TSType>::name(), "string");
}

#[test]
fn type_def_collects_names_and_deduplicated_dependencies() {
    let def = TypeDef::new::<i32, bool>();
    assert_eq!(def.arg_ty_name, "number");
    assert_eq!(def.result_ty_name, "boolean");
    assert!(def.dependencies.is_empty());
}

#[test]
fn client_definitions_keep_exportable_nodes_only() {
    let mut reg = TypeRegistry::new();
    assert!(reg.declare(decl(1, "number", TypeShape::Primitive(PrimitiveType::Int), vec![], false)));
    assert!(reg.declare(decl(7, "Post", TypeShape::Object, vec![1, 8], true)));
    assert!(reg.declare(decl(8, "Author", TypeShape::Object, vec![], true)));
    let mut graph = TypeGraph::new();
    graph.export(&reg, 7).unwrap();
    let defs = graph.client_definitions(&reg);
    let names: Vec<&str> = defs.iter().map(|d| d.ts_name.as_str()).collect();
    assert_eq!(names, vec!["Post", "Author"]);
    assert_eq!(defs[0].type_id, 7);
    assert_eq!(defs[1].type_id, 8);
}

#[test]
fn dependencies_order_on_identity_then_name() {
    let a = TSDependency { type_id: 1, ts_name: "A".to_string() };
    let b = TSDependency { type_id: 2, ts_name: "B".to_string() };
    assert!(a < b);
    assert_eq!(a.clone(), a);
}
