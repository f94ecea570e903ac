//! Rules, rule-graph entries and edges, and the host's type registry.

use std::sync::Arc;
use vstd::prelude::*;
use crate::params::{Key, TypeId, contains_type};
use crate::text::{decimal, decimal_string};

verus! {

/// A dependency that a generator body declares it may request.
#[derive(Clone, Copy, Debug, PartialEq, Eq, Hash, Structural)]
pub struct GetDecl {
    pub product: TypeId,
    pub subject: TypeId,
}

/// What the user sees of a task.
#[derive(Clone, Debug, PartialEq, Eq, Hash)]
pub struct DisplayInfo {
    pub name: Option<String>,
    pub desc: Option<String>,
}

/// A host function: its interned key and its qualified name.
#[derive(Clone, Debug, PartialEq, Eq, Hash)]
pub struct Function {
    pub key: Key,
    pub name: String,
}

/// A user rule whose body runs in the host.
#[derive(Clone, Debug, PartialEq, Eq, Hash)]
pub struct TaskRule {
    pub func: Function,
    pub clause: Vec<TypeId>,
    pub product: TypeId,
    pub gets: Vec<GetDecl>,
    pub cacheable: bool,
    pub display_info: DisplayInfo,
}

/// An engine-provided rule.
#[derive(Clone, Debug, PartialEq, Eq, Hash)]
pub struct Intrinsic {
    pub product: TypeId,
    pub inputs: Vec<TypeId>,
}

/// A rule of the graph.
#[derive(Clone, Debug, PartialEq, Eq, Hash)]
pub enum Rule {
    Task(Arc<TaskRule>),
    Intrinsic(Arc<Intrinsic>),
}

/// A rule entry of the graph: its position, the parameter types it accepts, and its rule.
#[derive(Clone, Debug, PartialEq, Eq, Hash)]
pub struct InnerEntry {
    pub id: usize,
    pub params: Vec<TypeId>,
    pub rule: Rule,
}

/// A node of the rule graph.
#[derive(Clone, Debug, PartialEq, Eq, Hash)]
pub enum Entry {
    /// The product is the parameter of this type.
    Param(TypeId),
    /// A rule with pre-resolved edges.
    Inner(Arc<InnerEntry>),
    /// A planner root accepting these parameter types; never executed.
    Root(Arc<Vec<TypeId>>),
}

/// The key under which an entry's edges are found.
#[derive(Clone, Copy, Debug, PartialEq, Eq, Hash, Structural)]
pub enum DependencyKey {
    /// A bare selection of a product.
    JustSelect(TypeId),
    /// A `Get` of a product for a subject of the given type.
    JustGet { product: TypeId, subject: TypeId },
}

/// The outgoing edges of one entry.
#[derive(Clone, Debug, PartialEq, Eq, Hash)]
pub struct EdgeSet {
    pub edges: Vec<(DependencyKey, Entry)>,
}

/// The precomputed rule graph: the edges of inner entry `id` are `edge_sets[id]`.
#[derive(Clone, Debug, PartialEq, Eq)]
pub struct RuleGraph {
    pub edge_sets: Vec<EdgeSet>,
}

/// What the engine knows of host types.
#[derive(Clone, Debug, PartialEq, Eq)]
pub struct Types {
    /// The type of a generator returned by a rule body.
    pub coroutine: TypeId,
    /// The types declared as unions.
    pub unions: Vec<TypeId>,
    /// Display names of types.
    pub names: Vec<(TypeId, String)>,
}

/// The parameter types that an entry accepts.
pub open spec fn accepted_params(e: Entry) -> Seq<TypeId> {
    match e {
        Entry::Param(t) => seq![t],
        Entry::Inner(i) => i.params@,
        Entry::Root(p) => p@,
    }
}

/// The entry that the first edge keyed `k` leads to.
pub open spec fn lookup(edges: Seq<(DependencyKey, Entry)>, k: DependencyKey) -> Option<Entry>
    decreases edges.len(),
{
    if edges.len() == 0 {
        None
    } else if edges[0].0 == k {
        Some(edges[0].1)
    } else {
        lookup(edges.drop_first(), k)
    }
}

/// The edges of `e` in `g`, if it is an inner entry with edges.
pub open spec fn edges_of(g: RuleGraph, e: Entry) -> Option<EdgeSet> {
    match e {
        Entry::Inner(i) => if i.id < g.edge_sets@.len() {
            Some(g.edge_sets@[i.id as int])
        } else {
            None
        },
        _ => None,
    }
}

/// A copy of a vector of plain values.
pub fn copy_vec<T: Copy>(v: &Vec<T>) -> (r: Vec<T>)
    ensures
        r@ == v@,
{
    let mut r: Vec<T> = Vec::new();
    let mut i: usize = 0;
    while i < v.len()
        invariant
            i <= v@.len(),
            r@ == v@.subrange(0, i as int),
        decreases v@.len() - i,
    {
        r.push(v[i]);
        i = i + 1;
        proof {
            assert(r@ =~= v@.subrange(0, i as int));
        }
    }
    proof {
        assert(v@.subrange(0, v@.len() as int) =~= v@);
    }
    r
}

impl Entry {
    /// An identical copy.
    pub fn duplicate(&self) -> (r: Entry)
        ensures
            r == *self,
    {
        match self {
            Entry::Param(t) => Entry::Param(*t),
            Entry::Inner(i) => Entry::Inner(i.clone()),
            Entry::Root(p) => Entry::Root(p.clone()),
        }
    }

    /// The parameter types this entry accepts.
    pub fn accepted_params(&self) -> (r: Vec<TypeId>)
        ensures
            r@ == accepted_params(*self),
    {
        match self {
            Entry::Param(t) => {
                let r = vec![*t];
                proof {
                    assert(r@ =~= seq![*t]);
                }
                r
            },
            Entry::Inner(i) => copy_vec(&i.params),
            Entry::Root(p) => copy_vec(&**p),
        }
    }
}

impl EdgeSet {
    /// The entry that the first edge keyed `k` leads to.
    pub fn entry_for(&self, k: DependencyKey) -> (r: Option<Entry>)
        ensures
            r == lookup(self.edges@, k),
    {
        let mut i: usize = 0;
        proof {
            assert(self.edges@.subrange(0, self.edges@.len() as int) =~= self.edges@);
        }
        while i < self.edges.len()
            invariant
                i <= self.edges@.len(),
                lookup(self.edges@, k) == lookup(self.edges@.subrange(i as int, self.edges@.len() as int), k),
            decreases self.edges@.len() - i,
        {
            let ghost rest = self.edges@.subrange(i as int, self.edges@.len() as int);
            if self.edges[i].0 == k {
                return Some(self.edges[i].1.duplicate());
            }
            proof {
                assert(rest.drop_first() =~= self.edges@.subrange(i + 1, self.edges@.len() as int));
            }
            i = i + 1;
        }
        None
    }
}

impl RuleGraph {
    /// The edges of `e`, if it is an inner entry with edges.
    pub fn edges_for_inner(&self, e: &Entry) -> (r: Option<&EdgeSet>)
        ensures
            match edges_of(*self, *e) {
                Some(s) => r == Some(&s),
                None => r is None,
            },
    {
        match e {
            Entry::Inner(i) => if i.id < self.edge_sets.len() {
                Some(&self.edge_sets[i.id])
            } else {
                None
            },
            _ => None,
        }
    }
}

/// The display name of `t` in `names`, or its number where it has none.
pub open spec fn type_name_in(names: Seq<(TypeId, String)>, t: TypeId) -> Seq<char>
    decreases names.len(),
{
    if names.len() == 0 {
        decimal(t.0 as nat)
    } else if names[0].0 == t {
        names[0].1@
    } else {
        type_name_in(names.drop_first(), t)
    }
}

impl Types {
    /// The display name of `t`.
    pub open spec fn name_of(&self, t: TypeId) -> Seq<char> {
        type_name_in(self.names@, t)
    }

    /// The display name of `t`.
    pub fn display_name(&self, t: TypeId) -> (r: String)
        ensures
            r@ == self.name_of(t),
    {
        let mut i: usize = 0;
        proof {
            assert(self.names@.subrange(0, self.names@.len() as int) =~= self.names@);
        }
        while i < self.names.len()
            invariant
                i <= self.names@.len(),
                self.name_of(t) == type_name_in(self.names@.subrange(i as int, self.names@.len() as int), t),
            decreases self.names@.len() - i,
        {
            let ghost rest = self.names@.subrange(i as int, self.names@.len() as int);
            if self.names[i].0.0 == t.0 {
                proof {
                    assert(self.names@[i as int].0 == t);
                }
                return self.names[i].1.clone();
            }
            proof {
                assert(rest.drop_first() =~= self.names@.subrange(i + 1, self.names@.len() as int));
            }
            i = i + 1;
        }
        decimal_string(t.0)
    }

    /// Whether `t` is a union type.
    pub fn is_union(&self, t: TypeId) -> (r: bool)
        ensures
            r == self.unions@.contains(t),
    {
        contains_type(&self.unions, t)
    }
}

} // verus!
