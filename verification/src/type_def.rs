//! The language-neutral type schema: declarations, the accumulated type
//! graph, and the export pass that walks a declaration's dependencies.
//!
//! A type is known to the core by a stable numeric identity. A
//! [`TypeRegistry`] holds one [`TypeDecl`] per identity: its name, its
//! structural shape and the identities it depends on. An export pass fills a
//! caller-owned [`TypeGraph`] with one [`TypeNode`] per reachable identity;
//! exporting an identity twice is a no-op, and a declaration that depends on
//! itself terminates because the node is recorded before its dependencies
//! are walked.

use vstd::prelude::*;
use vstd::pervasive::unreached;
use vstd::seq_lib::*;
use vstd::set_lib::*;
use crate::InternalError;

verus! {

/// The built-in scalar shapes a wire value can take directly.
#[derive(Clone, Copy, Debug, PartialEq, Eq, Structural)]
pub enum PrimitiveType {
    Int,
    Bool,
    Text,
    Unit,
}

/// The structural shape of a declared type.
#[derive(Clone, Copy, Debug, PartialEq, Eq, Structural)]
pub enum TypeShape {
    Primitive(PrimitiveType),
    Object,
    Variants,
    List,
    Optional,
    Dictionary,
}

/// One declared type: a stable identity, a stable name, a shape, and the
/// identities of the types it depends on (ordered). `exportable` records
/// whether a client-side definition is emitted for the type itself
/// (primitives are not).
pub struct TypeDecl {
    pub id: u64,
    pub name: String,
    pub shape: TypeShape,
    pub deps: Vec<u64>,
    pub exportable: bool,
}

/// All type declarations known to one process: at most one declaration per
/// identity.
pub struct TypeRegistry {
    pub decls: Vec<TypeDecl>,
}

/// One exported schema fragment: the declared identity, name, shape and
/// ordered dependency identities of a type.
pub struct TypeNode {
    pub id: u64,
    pub name: String,
    pub shape: TypeShape,
    pub deps: Vec<u64>,
}

/// The accumulating result of an export pass: one node per exported
/// identity, deduplicated by identity.
pub struct TypeGraph {
    pub nodes: Vec<TypeNode>,
}

impl TypeRegistry {
    /// At most one declaration per identity.
    pub open spec fn wf(self) -> bool {
        forall|i: int, j: int|
            0 <= i < j < self.decls@.len() ==> self.decls@[i].id != self.decls@[j].id
    }

    pub open spec fn declares(self, id: u64) -> bool {
        exists|i: int| 0 <= i < self.decls@.len() && self.decls@[i].id == id
    }

    pub open spec fn decl_index(self, id: u64) -> int {
        choose|i: int| 0 <= i < self.decls@.len() && self.decls@[i].id == id
    }

    /// The declaration registered under `id` (meaningful when `declares(id)`).
    pub open spec fn decl_of(self, id: u64) -> TypeDecl {
        self.decls@[self.decl_index(id)]
    }

    /// Every dependency of every declaration is itself declared.
    pub open spec fn closed(self) -> bool {
        forall|i: int, j: int|
            0 <= i < self.decls@.len() && 0 <= j < self.decls@[i].deps@.len()
                ==> self.declares(#[trigger] self.decls@[i].deps@[j])
    }

    /// The set of declared identities.
    pub open spec fn id_set(self) -> Set<u64> {
        self.decls@.map_values(|d: TypeDecl| d.id).to_set()
    }

    pub fn new() -> (r: TypeRegistry)
        ensures
            r.decls@ =~= Seq::<TypeDecl>::empty(),
            r.wf(),
    {
        TypeRegistry { decls: Vec::new() }
    }

    /// Register a declaration. Returns `false`, registering nothing, when the
    /// identity is already taken.
    pub fn declare(&mut self, decl: TypeDecl) -> (r: bool)
        requires
            old(self).wf(),
        ensures
            final(self).wf(),
            r == !old(self).declares(decl.id),
            r ==> final(self).decls@ =~= old(self).decls@.push(decl),
            !r ==> *final(self) == *old(self),
    {
        if self.contains(decl.id) {
            false
        } else {
            self.decls.push(decl);
            true
        }
    }

    /// Whether an identity is declared.
    pub fn contains(&self, id: u64) -> (r: bool)
        ensures
            r == self.declares(id),
    {
        let mut i: usize = 0;
        while i < self.decls.len()
            invariant
                0 <= i <= self.decls@.len(),
                forall|j: int| 0 <= j < i ==> self.decls@[j].id != id,
            decreases self.decls@.len() - i,
        {
            if self.decls[i].id == id {
                return true;
            }
            i += 1;
        }
        false
    }

    /// Look an identity up.
    pub fn get(&self, id: u64) -> (r: Option<&TypeDecl>)
        requires
            self.wf(),
        ensures
            match r {
                Some(d) => self.declares(id) && *d == self.decl_of(id) && d.id == id,
                None => !self.declares(id),
            },
    {
        let mut i: usize = 0;
        while i < self.decls.len()
            invariant
                self.wf(),
                0 <= i <= self.decls@.len(),
                forall|j: int| 0 <= j < i ==> self.decls@[j].id != id,
            decreases self.decls@.len() - i,
        {
            if self.decls[i].id == id {
                proof {
                    let k = self.decl_index(id);
                    assert(self.decls@[k].id == id);
                    assert(k == i);
                }
                return Some(&self.decls[i]);
            }
            i += 1;
        }
        None
    }
}

impl TypeGraph {
    /// At most one node per identity.
    pub open spec fn wf(self) -> bool {
        forall|i: int, j: int|
            0 <= i < j < self.nodes@.len() ==> self.nodes@[i].id != self.nodes@[j].id
    }

    pub open spec fn has(self, id: u64) -> bool {
        exists|i: int| 0 <= i < self.nodes@.len() && self.nodes@[i].id == id
    }

    pub open spec fn node_index(self, id: u64) -> int {
        choose|i: int| 0 <= i < self.nodes@.len() && self.nodes@[i].id == id
    }

    /// The node exported under `id` (meaningful when `has(id)`).
    pub open spec fn node_of(self, id: u64) -> TypeNode {
        self.nodes@[self.node_index(id)]
    }

    /// The set of exported identities.
    pub open spec fn id_set(self) -> Set<u64> {
        self.nodes@.map_values(|n: TypeNode| n.id).to_set()
    }

    /// Every node in the graph reproduces its declaration exactly: same
    /// identity, name, shape and ordered dependencies.
    pub open spec fn faithful(self, reg: TypeRegistry) -> bool {
        forall|i: int| 0 <= i < self.nodes@.len() ==> {
            let n = #[trigger] self.nodes@[i];
            &&& reg.declares(n.id)
            &&& n.name@ == reg.decl_of(n.id).name@
            &&& n.shape == reg.decl_of(n.id).shape
            &&& n.deps@ == reg.decl_of(n.id).deps@
        }
    }

    pub fn new() -> (r: TypeGraph)
        ensures
            r.nodes@ =~= Seq::<TypeNode>::empty(),
            r.wf(),
            forall|reg: TypeRegistry| r.faithful(reg),
            r.id_set() =~= Set::<u64>::empty(),
    {
        let g = TypeGraph { nodes: Vec::new() };
        proof {
            assert forall|id: u64| !g.id_set().contains(id) by {
                assert(!g.nodes@.map_values(|n: TypeNode| n.id).contains(id));
            }
        }
        g
    }

    pub fn len(&self) -> (r: usize)
        ensures
            r == self.nodes@.len(),
    {
        self.nodes.len()
    }

    /// Whether an identity was already exported.
    pub fn contains(&self, id: u64) -> (r: bool)
        ensures
            r == self.has(id),
    {
        let mut i: usize = 0;
        while i < self.nodes.len()
            invariant
                0 <= i <= self.nodes@.len(),
                forall|j: int| 0 <= j < i ==> self.nodes@[j].id != id,
            decreases self.nodes@.len() - i,
        {
            if self.nodes[i].id == id {
                return true;
            }
            i += 1;
        }
        false
    }

    /// Look an exported node up.
    pub fn get(&self, id: u64) -> (r: Option<&TypeNode>)
        requires
            self.wf(),
        ensures
            match r {
                Some(n) => self.has(id) && *n == self.node_of(id) && n.id == id,
                None => !self.has(id),
            },
    {
        let mut i: usize = 0;
        while i < self.nodes.len()
            invariant
                self.wf(),
                0 <= i <= self.nodes@.len(),
                forall|j: int| 0 <= j < i ==> self.nodes@[j].id != id,
            decreases self.nodes@.len() - i,
        {
            if self.nodes[i].id == id {
                proof {
                    let k = self.node_index(id);
                    assert(self.nodes@[k].id == id);
                    assert(k == i);
                }
                return Some(&self.nodes[i]);
            }
            i += 1;
        }
        None
    }

    /// Export the type declared under `id` into this graph, together with
    /// its transitive dependencies.
    ///
    /// Exporting an identity that is already in the graph changes nothing
    /// and returns the same identity, so repeated export is idempotent and
    /// node identity is deterministic. A node is recorded before its
    /// dependencies are walked, so self-referential and mutually-referential
    /// declarations terminate, each recording its dependencies by identity.
    pub fn export(&mut self, reg: &TypeRegistry, id: u64) -> (r: Result<u64, InternalError>)
        requires
            old(self).wf(),
            reg.wf(),
            old(self).faithful(*reg),
        ensures
            final(self).wf(),
            final(self).faithful(*reg),
            old(self).id_set().subset_of(final(self).id_set()),
            match r {
                Ok(nid) => {
                    &&& nid == id
                    &&& reg.declares(id)
                    &&& final(self).has(id)
                    &&& (!old(self).has(id) ==> forall|j: int|
                        0 <= j < reg.decl_of(id).deps@.len()
                            ==> final(self).has(#[trigger] reg.decl_of(id).deps@[j]))
                },
                Err(e) => e matches InternalError::SchemaExportUnsupported(d) && !reg.declares(d),
            },
            old(self).has(id) ==> r == Ok::<u64, InternalError>(id) && *final(self) == *old(self),
            reg.closed() && reg.declares(id) ==> r is Ok,
        decreases reg.id_set().difference(old(self).id_set()).len(),
    {
        broadcast use vstd::seq_lib::seq_to_set_is_finite;
        broadcast use vstd::set::group_set_axioms;

        if self.contains(id) {
            proof {
                let i = choose|i: int| 0 <= i < self.nodes@.len() && self.nodes@[i].id == id;
                assert(self.nodes@[i].id == id);
            }
            return Ok(id);
        }
        let decl = match reg.get(id) {
            Some(d) => d,
            None => {
                return Err(InternalError::SchemaExportUnsupported(id));
            },
        };
        let ghost g0 = *self;
        proof {
            lemma_graph_has_id_set(g0, id);
            lemma_reg_id_set(*reg, id);
        }
        let node = TypeNode {
            id,
            name: decl.name.clone(),
            shape: decl.shape,
            deps: copy_ids(&decl.deps),
        };
        self.nodes.push(node);
        proof {
            let ids0 = g0.nodes@.map_values(|n: TypeNode| n.id);
            let ids1 = self.nodes@.map_values(|n: TypeNode| n.id);
            assert(ids1 =~= ids0.push(id));
            assert forall|x: u64| ids0.contains(x) implies ids1.contains(x) by {
                let w = choose|w: int| 0 <= w < ids0.len() && ids0[w] == x;
                assert(ids1[w] == x);
            }
            assert(ids1.contains(id)) by {
                assert(ids1[ids1.len() - 1] == id);
            }
            assert forall|x: u64| ids1.contains(x) && x != id implies ids0.contains(x) by {
                let w = choose|w: int| 0 <= w < ids1.len() && ids1[w] == x;
                assert(ids0[w] == x);
            }
            assert(self.id_set() =~= g0.id_set().insert(id));
        }
        let ghost g1 = *self;
        let mut k: usize = 0;
        while k < decl.deps.len()
            invariant
                reg.wf(),
                reg.declares(id),
                *decl == reg.decl_of(id),
                decl.id == id,
                self.wf(),
                self.faithful(*reg),
                g1.id_set().subset_of(self.id_set()),
                g0.id_set().subset_of(g1.id_set()),
                g1.id_set().contains(id),
                !g0.id_set().contains(id),
                !g0.has(id),
                g0 == *old(self),
                reg.id_set().contains(id),
                0 <= k <= decl.deps@.len(),
                forall|j: int| 0 <= j < k ==> self.has(#[trigger] decl.deps@[j]),
                self.has(id),
                reg.closed() ==> forall|j: int|
                    0 <= j < decl.deps@.len() ==> reg.declares(#[trigger] decl.deps@[j]),
            decreases decl.deps@.len() - k,
        {
            let d = decl.deps[k];
            let ghost gpre = *self;
            proof {
                assert(g0.id_set().subset_of(self.id_set()));
                assert(self.id_set().contains(id));
                lemma_measure_shrinks(*reg, g0, *self, id);
            }
            match self.export(reg, d) {
                Ok(_) => {},
                Err(e) => {
                    return Err(e);
                },
            }
            proof {
                assert forall|j: int| 0 <= j < k + 1 implies self.has(
                    #[trigger] decl.deps@[j],
                ) by {
                    if j < k {
                        lemma_graph_has_id_set(gpre, decl.deps@[j]);
                        lemma_graph_has_id_set(*self, decl.deps@[j]);
                    }
                }
                lemma_graph_has_id_set(gpre, id);
                lemma_graph_has_id_set(*self, id);
            }
            k += 1;
        }
        Ok(id)
    }
}

/// Membership in a graph's identity set is exactly `has`.
proof fn lemma_graph_has_id_set(g: TypeGraph, id: u64)
    ensures
        g.has(id) <==> g.id_set().contains(id),
{
    broadcast use vstd::set::group_set_axioms;

    let ids = g.nodes@.map_values(|n: TypeNode| n.id);
    if g.has(id) {
        let i = choose|i: int| 0 <= i < g.nodes@.len() && g.nodes@[i].id == id;
        assert(ids[i] == id);
        assert(ids.contains(id));
    }
    if ids.contains(id) {
        let i = choose|i: int| 0 <= i < ids.len() && ids[i] == id;
        assert(g.nodes@[i].id == id);
    }
}

/// An exported identity stays exported when the graph grows.
pub proof fn lemma_graph_has_preserved(g1: TypeGraph, g2: TypeGraph, id: u64)
    requires
        g1.id_set().subset_of(g2.id_set()),
        g1.has(id),
    ensures
        g2.has(id),
{
    lemma_graph_has_id_set(g1, id);
    lemma_graph_has_id_set(g2, id);
}

/// Membership in a registry's identity set is exactly `declares`.
proof fn lemma_reg_id_set(reg: TypeRegistry, id: u64)
    ensures
        reg.declares(id) <==> reg.id_set().contains(id),
{
    broadcast use vstd::set::group_set_axioms;

    let ids = reg.decls@.map_values(|d: TypeDecl| d.id);
    if reg.declares(id) {
        let i = choose|i: int| 0 <= i < reg.decls@.len() && reg.decls@[i].id == id;
        assert(ids[i] == id);
        assert(ids.contains(id));
    }
    if ids.contains(id) {
        let i = choose|i: int| 0 <= i < ids.len() && ids[i] == id;
        assert(reg.decls@[i].id == id);
    }
}

/// Copy a dependency list.
fn copy_ids(v: &Vec<u64>) -> (r: Vec<u64>)
    ensures
        r@ =~= v@,
{
    let mut r: Vec<u64> = Vec::new();
    let mut i: usize = 0;
    while i < v.len()
        invariant
            0 <= i <= v@.len(),
            r@ =~= v@.take(i as int),
        decreases v@.len() - i,
    {
        r.push(v[i]);
        i += 1;
    }
    proof {
        assert(r@ =~= v@.take(v@.len() as int));
        assert(v@.take(v@.len() as int) =~= v@);
    }
    r
}

/// After a fresh identity was added to the graph, the set of declared but
/// not yet exported identities is strictly smaller than it was before.
proof fn lemma_measure_shrinks(reg: TypeRegistry, g0: TypeGraph, g: TypeGraph, id: u64)
    requires
        reg.id_set().contains(id),
        !g0.id_set().contains(id),
        g.id_set().contains(id),
        g0.id_set().subset_of(g.id_set()),
    ensures
        reg.id_set().difference(g.id_set()).len()
            < reg.id_set().difference(g0.id_set()).len(),
{
    broadcast use vstd::seq_lib::seq_to_set_is_finite;
    broadcast use vstd::set::group_set_axioms;

    let m0 = reg.id_set().difference(g0.id_set());
    let m1 = reg.id_set().difference(g.id_set());
    assert(m0.contains(id));
    assert(m1.subset_of(m0.remove(id)));
    assert(m0.remove(id).len() == m0.len() - 1);
    lemma_len_subset(m1, m0.remove(id));
}

/// If a declaration lists its own identity among its dependencies, the
/// exported node records that self-dependency by identity: the node's
/// dependency list is the declaration's, which contains `id` itself.
pub proof fn lemma_self_dependency_by_identity(g: TypeGraph, reg: TypeRegistry, id: u64)
    requires
        g.wf(),
        g.faithful(reg),
        g.has(id),
        reg.decl_of(id).deps@.contains(id),
    ensures
        g.node_of(id).deps@.contains(id),
{
    let k = g.node_index(id);
    assert(g.nodes@[k].id == id);
}

/// A dependency a client-language export carries: the identity of the
/// depended-on type and its client-side name.
#[derive(Debug, Clone, PartialEq, Eq, PartialOrd, Ord)]
pub struct TSDependency {
    pub type_id: u64,
    pub ts_name: String,
}

/// The model of one dependency: identity and name.
pub open spec fn dep_model(d: TSDependency) -> (u64, Seq<char>) {
    (d.type_id, d.ts_name@)
}

pub open spec fn has_dep_id(s: Seq<TSDependency>, id: u64) -> bool {
    exists|i: int| 0 <= i < s.len() && s[i].type_id == id
}

/// Whether a dependency-model list carries an identity.
pub open spec fn model_has_id(s: Seq<(u64, Seq<char>)>, id: u64) -> bool {
    exists|i: int| 0 <= i < s.len() && s[i].0 == id
}

/// A dependency list combined as a set keyed by identity: each identity's
/// first occurrence is kept, in order of first appearance, and every later
/// occurrence is dropped.
pub open spec fn dedup_first_by_id(s: Seq<(u64, Seq<char>)>) -> Seq<(u64, Seq<char>)>
    decreases s.len(),
{
    if s.len() == 0 {
        Seq::empty()
    } else if model_has_id(s.drop_last(), s.last().0) {
        dedup_first_by_id(s.drop_last())
    } else {
        dedup_first_by_id(s.drop_last()).push(s.last())
    }
}

/// Types that surface a client-language type definition: a stable name and
/// the dependencies to export alongside.
pub trait TSType: Sized {
    /// The client-side name of this type.
    spec fn ts_name_spec() -> Seq<char>;

    /// The dependencies this type surfaces, as (identity, name) pairs.
    spec fn ts_deps_spec() -> Seq<(u64, Seq<char>)>;

    fn name() -> (r: String)
        ensures
            r@ == Self::ts_name_spec(),
    ;

    fn dependencies() -> (r: Vec<TSDependency>)
        ensures
            r@.map_values(|d: TSDependency| dep_model(d)) =~= Self::ts_deps_spec(),
    ;
}

impl TSType for i32 {
    open spec fn ts_name_spec() -> Seq<char> {
        "number"@
    }

    open spec fn ts_deps_spec() -> Seq<(u64, Seq<char>)> {
        Seq::empty()
    }

    fn name() -> (r: String) {
        "number".to_owned()
    }

    fn dependencies() -> (r: Vec<TSDependency>) {
        Vec::new()
    }
}

impl TSType for bool {
    open spec fn ts_name_spec() -> Seq<char> {
        "boolean"@
    }

    open spec fn ts_deps_spec() -> Seq<(u64, Seq<char>)> {
        Seq::empty()
    }

    fn name() -> (r: String) {
        "boolean".to_owned()
    }

    fn dependencies() -> (r: Vec<TSDependency>) {
        Vec::new()
    }
}

impl TSType for String {
    open spec fn ts_name_spec() -> Seq<char> {
        "string"@
    }

    open spec fn ts_deps_spec() -> Seq<(u64, Seq<char>)> {
        Seq::empty()
    }

    fn name() -> (r: String) {
        "string".to_owned()
    }

    fn dependencies() -> (r: Vec<TSDependency>) {
        Vec::new()
    }
}

/// The exported type information of one procedure: the names of its
/// argument and result types, and their combined dependencies,
/// deduplicated by type identity.
#[derive(Debug)]
pub struct TypeDef {
    pub arg_ty_name: String,
    pub result_ty_name: String,
    pub dependencies: Vec<TSDependency>,
}

impl TypeDef {
    /// Collect the argument and result types' names and dependencies. The
    /// dependency lists are combined as a set keyed by type identity: an
    /// identity appears at most once, every kept entry comes from one of
    /// the two lists, exactly the identities of the two lists appear, and
    /// the kept entries stand in order of first appearance (argument's
    /// list first, then the result's).
    pub fn new<TArg: TSType, TRes: TSType>() -> (r: TypeDef)
        ensures
            r.arg_ty_name@ == TArg::ts_name_spec(),
            r.result_ty_name@ == TRes::ts_name_spec(),
            forall|i: int, j: int|
                0 <= i < j < r.dependencies@.len() ==> r.dependencies@[i].type_id
                    != r.dependencies@[j].type_id,
            forall|id: u64| has_dep_id(r.dependencies@, id) <==> exists|n: Seq<char>|
                (TArg::ts_deps_spec() + TRes::ts_deps_spec()).contains((id, n)),
            forall|i: int|
                0 <= i < r.dependencies@.len() ==> (TArg::ts_deps_spec()
                    + TRes::ts_deps_spec()).contains(dep_model(#[trigger] r.dependencies@[i])),
            r.dependencies@.map_values(|d: TSDependency| dep_model(d)) =~= dedup_first_by_id(
                TArg::ts_deps_spec() + TRes::ts_deps_spec(),
            ),
    {
        let mut combined = TArg::dependencies();
        let mut more = TRes::dependencies();
        combined.append(&mut more);
        let ghost pool = TArg::ts_deps_spec() + TRes::ts_deps_spec();
        proof {
            assert forall|i: int|
                0 <= i < combined@.len() implies pool.contains(
                dep_model(#[trigger] combined@[i]),
            ) by {
                let a = TArg::ts_deps_spec().len() as int;
                if i < a {
                    assert(pool[i] == dep_model(combined@[i]));
                } else {
                    assert(pool[i] == dep_model(combined@[i]));
                }
            }
            assert forall|id: u64| has_dep_id(combined@, id) implies exists|n: Seq<char>|
                pool.contains((id, n)) by {
                let i = choose|i: int| 0 <= i < combined@.len() && combined@[i].type_id == id;
                assert(pool.contains(dep_model(combined@[i])));
            }
            assert forall|id: u64| (exists|n: Seq<char>| pool.contains((id, n)))
                implies has_dep_id(combined@, id) by {
                let n = choose|n: Seq<char>| pool.contains((id, n));
                let i = choose|i: int| 0 <= i < pool.len() && pool[i] == (id, n);
                assert(dep_model(combined@[i]) == (id, n));
                assert(combined@[i].type_id == id);
            }
            assert forall|k: int| 0 <= k < combined@.len() implies combined@.map_values(
                |d: TSDependency| dep_model(d),
            )[k] == pool[k] by {
                let a = TArg::ts_deps_spec().len() as int;
                if k < a {
                    assert(pool[k] == dep_model(combined@[k]));
                } else {
                    assert(pool[k] == dep_model(combined@[k]));
                }
            }
            assert(combined@.map_values(|d: TSDependency| dep_model(d)) =~= pool);
        }
        let mut deps: Vec<TSDependency> = Vec::new();
        let mut i: usize = 0;
        while i < combined.len()
            invariant
                0 <= i <= combined@.len(),
                forall|u: int, v: int|
                    0 <= u < v < deps@.len() ==> deps@[u].type_id != deps@[v].type_id,
                forall|u: int| 0 <= u < deps@.len() ==> pool.contains(
                    dep_model(#[trigger] deps@[u]),
                ),
                forall|id: u64| has_dep_id(deps@, id) ==> has_dep_id(combined@.take(i as int), id),
                forall|id: u64| has_dep_id(combined@.take(i as int), id) ==> has_dep_id(deps@, id),
                forall|u: int| 0 <= u < combined@.len() ==> pool.contains(
                    dep_model(#[trigger] combined@[u]),
                ),
                pool =~= combined@.map_values(|d: TSDependency| dep_model(d)),
                deps@.map_values(|d: TSDependency| dep_model(d)) =~= dedup_first_by_id(
                    pool.take(i as int),
                ),
            decreases combined@.len() - i,
        {
            let d = combined_at(&combined, i);
            let ghost deps_pre = deps@;
            if !contains_dep_id(&deps, d.type_id) {
                deps.push(d);
                proof {
                    assert(deps@ =~= deps_pre.push(combined@[i as int]));
                    assert forall|id: u64| has_dep_id(deps@, id) implies has_dep_id(
                        combined@.take(i as int + 1),
                        id,
                    ) by {
                        let u = choose|u: int|
                            0 <= u < deps@.len() && (#[trigger] deps@[u]).type_id == id;
                        if u < deps_pre.len() {
                            assert(has_dep_id(deps_pre, id)) by {
                                assert(deps_pre[u].type_id == id);
                            }
                            let w = choose|w: int|
                                0 <= w < combined@.take(i as int).len()
                                    && (#[trigger] combined@.take(i as int)[w]).type_id == id;
                            assert(combined@.take(i as int + 1)[w].type_id == id);
                        } else {
                            assert(combined@.take(i as int + 1)[i as int].type_id == id);
                        }
                    }
                    assert forall|id: u64| has_dep_id(combined@.take(i as int + 1), id)
                        implies has_dep_id(deps@, id) by {
                        let w = choose|w: int|
                            0 <= w < combined@.take(i as int + 1).len()
                                && (#[trigger] combined@.take(i as int + 1)[w]).type_id == id;
                        if w < i as int {
                            assert(has_dep_id(combined@.take(i as int), id)) by {
                                assert(combined@.take(i as int)[w].type_id == id);
                            }
                            assert(has_dep_id(deps_pre, id));
                            let u = choose|u: int|
                                0 <= u < deps_pre.len() && (#[trigger] deps_pre[u]).type_id == id;
                            assert(deps@[u].type_id == id);
                        } else {
                            assert(combined@[i as int].type_id == id);
                            assert(deps@[deps@.len() - 1].type_id == id);
                        }
                    }
                    let m = pool.take(i as int + 1);
                    assert(m.drop_last() =~= pool.take(i as int));
                    assert(m.last() == pool[i as int]);
                    assert(pool[i as int] == dep_model(combined@[i as int]));
                    assert(!model_has_id(pool.take(i as int), combined@[i as int].type_id)) by {
                        if model_has_id(pool.take(i as int), combined@[i as int].type_id) {
                            let w = choose|w: int|
                                0 <= w < pool.take(i as int).len()
                                    && (#[trigger] pool.take(i as int)[w]).0 == combined@[
                                i as int].type_id;
                            assert(pool[w] == dep_model(combined@[w]));
                            assert(has_dep_id(combined@.take(i as int), combined@[
                                i as int].type_id)) by {
                                assert(combined@.take(i as int)[w].type_id == combined@[
                                    i as int].type_id);
                            }
                            assert(has_dep_id(deps_pre, combined@[i as int].type_id));
                            assert(false);
                        }
                    }
                    assert(dedup_first_by_id(m) =~= dedup_first_by_id(
                        pool.take(i as int),
                    ).push(pool[i as int]));
                    assert(deps@.map_values(|d: TSDependency| dep_model(d)) =~= deps_pre
                        .map_values(|d: TSDependency| dep_model(d)).push(
                        dep_model(combined@[i as int]),
                    ));
                    assert(deps@.map_values(|d: TSDependency| dep_model(d))
                        =~= dedup_first_by_id(pool.take(i as int + 1)));
                }
            } else {
                proof {
                    assert forall|id: u64| has_dep_id(deps@, id) implies has_dep_id(
                        combined@.take(i as int + 1),
                        id,
                    ) by {
                        assert(has_dep_id(combined@.take(i as int), id));
                        let w = choose|w: int|
                            0 <= w < combined@.take(i as int).len()
                                && (#[trigger] combined@.take(i as int)[w]).type_id == id;
                        assert(combined@.take(i as int + 1)[w].type_id == id);
                    }
                    assert forall|id: u64| has_dep_id(combined@.take(i as int + 1), id)
                        implies has_dep_id(deps@, id) by {
                        let w = choose|w: int|
                            0 <= w < combined@.take(i as int + 1).len()
                                && (#[trigger] combined@.take(i as int + 1)[w]).type_id == id;
                        if w < i as int {
                            assert(has_dep_id(combined@.take(i as int), id)) by {
                                assert(combined@.take(i as int)[w].type_id == id);
                            }
                        } else {
                            assert(combined@[i as int].type_id == id);
                        }
                    }
                    let m = pool.take(i as int + 1);
                    assert(m.drop_last() =~= pool.take(i as int));
                    assert(m.last() == pool[i as int]);
                    assert(pool[i as int] == dep_model(combined@[i as int]));
                    assert(has_dep_id(combined@.take(i as int), combined@[i as int].type_id));
                    assert(model_has_id(pool.take(i as int), combined@[i as int].type_id)) by {
                        let w = choose|w: int|
                            0 <= w < combined@.take(i as int).len()
                                && (#[trigger] combined@.take(i as int)[w]).type_id == combined@[
                            i as int].type_id;
                        assert(pool[w] == dep_model(combined@[w]));
                        assert(pool.take(i as int)[w].0 == combined@[i as int].type_id);
                    }
                    assert(dedup_first_by_id(m) =~= dedup_first_by_id(pool.take(i as int)));
                }
            }
            i += 1;
        }
        proof {
            assert(combined@.take(combined@.len() as int) =~= combined@);
            assert(pool.take(combined@.len() as int) =~= pool);
        }
        TypeDef { arg_ty_name: TArg::name(), result_ty_name: TRes::name(), dependencies: deps }
    }
}

impl TypeGraph {
    /// The client-side definitions an export pass emits: one entry per
    /// exported identity whose declaration is `exportable` (primitives are
    /// not), carrying the identity and the exported name, in the graph's
    /// insertion order.
    pub fn client_definitions(&self, reg: &TypeRegistry) -> (r: Vec<TSDependency>)
        requires
            self.wf(),
            reg.wf(),
            self.faithful(*reg),
        ensures
            forall|id: u64| has_dep_id(r@, id) <==> self.has(id) && reg.decl_of(id).exportable,
            forall|u: int, v: int| 0 <= u < v < r@.len() ==> r@[u].type_id != r@[v].type_id,
            forall|k: int|
                0 <= k < r@.len() ==> self.has((#[trigger] r@[k]).type_id) && r@[k].ts_name@
                    == self.node_of(r@[k].type_id).name@,
    {
        let mut r: Vec<TSDependency> = Vec::new();
        let mut i: usize = 0;
        while i < self.nodes.len()
            invariant
                self.wf(),
                reg.wf(),
                self.faithful(*reg),
                0 <= i <= self.nodes@.len(),
                forall|id: u64| has_dep_id(r@, id) <==> exists|j: int|
                    0 <= j < i && (#[trigger] self.nodes@[j]).id == id
                        && reg.decl_of(id).exportable,
                forall|u: int, v: int| 0 <= u < v < r@.len() ==> r@[u].type_id != r@[v].type_id,
                forall|k: int|
                    0 <= k < r@.len() ==> self.has((#[trigger] r@[k]).type_id) && r@[k].ts_name@
                        == self.node_of(r@[k].type_id).name@,
            decreases self.nodes@.len() - i,
        {
            let node_id = self.nodes[i].id;
            proof {
                assert(self.nodes@[i as int].id == node_id);
                assert(self.has(node_id));
                let k = self.node_index(node_id);
                assert(self.nodes@[k].id == node_id);
                assert(k == i);
            }
            let decl = match reg.get(node_id) {
                Some(d) => d,
                None => unreached(),
            };
            if decl.exportable {
                let ghost r_pre = r@;
                r.push(TSDependency { type_id: node_id, ts_name: self.nodes[i].name.clone() });
                proof {
                    assert forall|id: u64| has_dep_id(r@, id) implies exists|j: int|
                        0 <= j < i + 1 && (#[trigger] self.nodes@[j]).id == id
                            && reg.decl_of(id).exportable by {
                        let u = choose|u: int|
                            0 <= u < r@.len() && (#[trigger] r@[u]).type_id == id;
                        if u < r_pre.len() {
                            assert(has_dep_id(r_pre, id)) by {
                                assert(r_pre[u].type_id == id);
                            }
                        } else {
                            assert(self.nodes@[i as int].id == id);
                        }
                    }
                    assert forall|id: u64|
                        (exists|j: int|
                            0 <= j < i + 1 && (#[trigger] self.nodes@[j]).id == id
                                && reg.decl_of(id).exportable) implies has_dep_id(r@, id) by {
                        let j = choose|j: int|
                            0 <= j < i + 1 && (#[trigger] self.nodes@[j]).id == id
                                && reg.decl_of(id).exportable;
                        if j < i as int {
                            assert(has_dep_id(r_pre, id));
                            let u = choose|u: int|
                                0 <= u < r_pre.len() && (#[trigger] r_pre[u]).type_id == id;
                            assert(r@[u].type_id == id);
                        } else {
                            assert(r@[r@.len() - 1].type_id == id);
                        }
                    }
                    assert forall|u: int, v: int|
                        0 <= u < v < r@.len() implies r@[u].type_id != r@[v].type_id by {
                        if v == r@.len() - 1 {
                            assert(r@[u] == r_pre[u]);
                            if r_pre[u].type_id == node_id {
                                assert(has_dep_id(r_pre, node_id)) by {
                                    assert(r_pre[u].type_id == node_id);
                                }
                                let j = choose|j: int|
                                    0 <= j < i && (#[trigger] self.nodes@[j]).id == node_id
                                        && reg.decl_of(node_id).exportable;
                                assert(self.nodes@[j].id == self.nodes@[i as int].id);
                                assert(false);
                            }
                        } else {
                            assert(r@[u] == r_pre[u]);
                            assert(r@[v] == r_pre[v]);
                        }
                    }
                }
            } else {
                proof {
                    assert forall|id: u64|
                        (exists|j: int|
                            0 <= j < i + 1 && (#[trigger] self.nodes@[j]).id == id
                                && reg.decl_of(id).exportable) implies has_dep_id(r@, id) by {
                        let j = choose|j: int|
                            0 <= j < i + 1 && (#[trigger] self.nodes@[j]).id == id
                                && reg.decl_of(id).exportable;
                        if j == i as int {
                            assert(reg.decl_of(node_id).exportable);
                            assert(false);
                        }
                    }
                }
            }
            i += 1;
        }
        proof {
            assert forall|id: u64| has_dep_id(r@, id) implies self.has(id)
                && reg.decl_of(id).exportable by {
                let j = choose|j: int|
                    0 <= j < self.nodes@.len() && (#[trigger] self.nodes@[j]).id == id
                        && reg.decl_of(id).exportable;
                assert(self.nodes@[j].id == id);
            }
            assert forall|id: u64| self.has(id) && reg.decl_of(id).exportable
                implies has_dep_id(r@, id) by {
                let j = choose|j: int| 0 <= j < self.nodes@.len() && self.nodes@[j].id == id;
                assert(self.nodes@[j].id == id);
            }
        }
        r
    }
}

/// Read one entry of a dependency list.
fn combined_at(v: &Vec<TSDependency>, i: usize) -> (r: TSDependency)
    requires
        i < v@.len(),
    ensures
        r == v@[i as int],
{
    let d = &v[i];
    TSDependency { type_id: d.type_id, ts_name: d.ts_name.clone() }
}

/// Whether a dependency list already carries an identity.
fn contains_dep_id(v: &Vec<TSDependency>, id: u64) -> (r: bool)
    ensures
        r == has_dep_id(v@, id),
{
    let mut i: usize = 0;
    while i < v.len()
        invariant
            0 <= i <= v@.len(),
            forall|j: int| 0 <= j < i ==> v@[j].type_id != id,
        decreases v@.len() - i,
    {
        if v[i].type_id == id {
            return true;
        }
        i += 1;
    }
    false
}

} // verus!
