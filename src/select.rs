//! Selecting a product for a set of parameters through the rule graph.

use std::sync::Arc;
use vstd::prelude::*;
use crate::failure::{Failure, throw, is_throw_of};
use crate::params::{Key, Params, TypeId, Value};
use crate::rules::{
    DependencyKey, EdgeSet, Entry, Intrinsic, Rule, RuleGraph, Types, accepted_params, edges_of,
    lookup,
};
use crate::task::Task;
use crate::text::{concat, owned};

verus! {

/// A request for `product` given `params`, resolved through `entry`.
#[derive(Clone, Debug, PartialEq, Eq, Hash)]
pub struct Select {
    pub params: Params,
    pub product: TypeId,
    pub entry: Entry,
}

/// The keys of `params` that `entry` accepts.
pub open spec fn narrowed(params: Set<Key>, entry: Entry) -> Set<Key> {
    params.filter(|k: Key| accepted_params(entry).contains(k.type_id))
}

/// What running a `Select` asks for next.
#[derive(Clone, Debug)]
pub enum SelectStep {
    /// The selected value: a parameter of the right type.
    Value(Value),
    /// Run the enclosed task node.
    RunTask(Task),
    /// Request these selects; the intrinsic then runs on their values, in order.
    RunIntrinsic { intrinsic: Arc<Intrinsic>, inputs: Vec<Select> },
}

/// Message for a missing parameter.
pub open spec fn missing_param_message(types: Types, t: TypeId) -> Seq<char> {
    "Expected a Param of type "@ + types.name_of(t) + " to be present."@
}

/// Message for a product with no edge to select it.
pub open spec fn missing_select_message(types: Types, t: TypeId) -> Seq<char> {
    "No rule was declared to compute "@ + types.name_of(t)
}

/// Message for an entry with no edges.
pub open spec fn no_edges_message() -> Seq<char> {
    "Tried to select products for an entry that has no edges"@
}

/// Message for a root entry.
pub open spec fn root_message() -> Seq<char> {
    "Not a runtime-executable entry"@
}

/// Every product of `products` has an edge in `edges`.
pub open spec fn all_selectable(edges: EdgeSet, products: Seq<TypeId>) -> bool {
    forall|i: int| 0 <= i < products.len()
        ==> lookup(edges.edges@, DependencyKey::JustSelect(#[trigger] products[i])) is Some
}

/// `sels` selects each of `products`, in order, from `params` through `edges`.
pub open spec fn selects_for(sels: Seq<Select>, params: Set<Key>, products: Seq<TypeId>, edges: EdgeSet) -> bool {
    &&& sels.len() == products.len()
    &&& forall|i: int| 0 <= i < products.len() ==> (#[trigger] sels[i]).built_from(
        params, products[i], lookup(edges.edges@, DependencyKey::JustSelect(products[i]))->Some_0)
}

impl Select {
    /// This select was built by `new` from these arguments.
    pub open spec fn built_from(&self, params: Set<Key>, product: TypeId, entry: Entry) -> bool {
        &&& self.params.wf()
        &&& self.params@ == narrowed(params, entry)
        &&& self.product == product
        &&& self.entry == entry
    }

    /// A select of `product` through `entry`, keeping only the parameters that `entry` accepts.
    pub fn new(params: Params, product: TypeId, entry: Entry) -> (r: Select)
        requires
            params.wf(),
        ensures
            r.built_from(params@, product, entry),
    {
        let mut params = params;
        let accepted = entry.accepted_params();
        params.retain_types(&accepted);
        Select { params, product, entry }
    }

    /// A select of `product` through the entry that `edges` gives for it.
    pub fn new_from_edges(params: Params, product: TypeId, edges: &EdgeSet, types: &Types) -> (r: Result<Select, Failure>)
        requires
            params.wf(),
        ensures
            match lookup(edges.edges@, DependencyKey::JustSelect(product)) {
                Some(e) => r matches Ok(s) && s.built_from(params@, product, e),
                None => r matches Err(f) && is_throw_of(f, missing_select_message(*types, product)),
            },
    {
        match edges.entry_for(DependencyKey::JustSelect(product)) {
            Some(e) => Ok(Select::new(params, product, e)),
            None => {
                let name = types.display_name(product);
                Err(throw(concat("No rule was declared to compute ", name.as_str())))
            },
        }
    }

    /// What running this select asks for next.
    pub fn step(&self, graph: &RuleGraph, types: &Types) -> (r: Result<SelectStep, Failure>)
        requires
            self.params.wf(),
        ensures
            match self.entry {
                Entry::Param(t) => match r {
                    Ok(SelectStep::Value(k)) => self.params@.contains(k) && k.type_id == t,
                    Ok(_) => false,
                    Err(f) => is_throw_of(f, missing_param_message(*types, t))
                        && forall|k: Key| self.params@.contains(k) ==> k.type_id != t,
                },
                Entry::Inner(inner) => match inner.rule {
                    Rule::Task(rule) => r matches Ok(SelectStep::RunTask(task))
                        && task.params.wf()
                        && task.params.keys_seq() == self.params.keys_seq()
                        && task.params@ == self.params@
                        && task.product == self.product
                        && task.task == rule
                        && task.entry == self.entry,
                    Rule::Intrinsic(intrinsic) => match edges_of(*graph, self.entry) {
                        None => r matches Err(f) && is_throw_of(f, no_edges_message()),
                        Some(edges) => if all_selectable(edges, intrinsic.inputs@) {
                            r matches Ok(SelectStep::RunIntrinsic { intrinsic: i, inputs })
                                && i == intrinsic
                                && selects_for(inputs@, self.params@, intrinsic.inputs@, edges)
                        } else {
                            r is Err
                        },
                    },
                },
                Entry::Root(_) => r matches Err(f) && is_throw_of(f, root_message()),
            },
    {
        match &self.entry {
            Entry::Param(t) => match self.params.find(*t) {
                Some(k) => Ok(SelectStep::Value(k)),
                None => {
                    let name = types.display_name(*t);
                    let msg = concat("Expected a Param of type ", name.as_str());
                    Err(throw(concat(msg.as_str(), " to be present.")))
                },
            },
            Entry::Inner(inner) => match &inner.rule {
                Rule::Task(rule) => Ok(SelectStep::RunTask(Task {
                    params: self.params.duplicate(),
                    product: self.product,
                    task: rule.clone(),
                    entry: self.entry.duplicate(),
                })),
                Rule::Intrinsic(intrinsic) => match graph.edges_for_inner(&self.entry) {
                    None => Err(throw(owned("Tried to select products for an entry that has no edges"))),
                    Some(edges) => {
                        let inputs = select_all(&self.params, &intrinsic.inputs, edges, types)?;
                        Ok(SelectStep::RunIntrinsic { intrinsic: intrinsic.clone(), inputs })
                    },
                },
            },
            Entry::Root(_) => Err(throw(owned("Not a runtime-executable entry"))),
        }
    }
}

/// A select built by `new` holds only parameters whose type its entry accepts; for a
/// parameter entry, only parameters of that entry's type.
pub proof fn lemma_select_narrowing(s: Select, params: Set<Key>, product: TypeId, entry: Entry)
    requires
        s.built_from(params, product, entry),
    ensures
        forall|k: Key| s.params@.contains(k) ==> accepted_params(entry).contains(k.type_id),
        forall|k: Key| s.params@.contains(k) ==> params.contains(k),
        forall|t: TypeId, k: Key| entry == Entry::Param(t) && s.params@.contains(k) ==> k.type_id == t,
{
    assert forall|t: TypeId, k: Key| entry == Entry::Param(t) && s.params@.contains(k) implies k.type_id == t by {
        assert(accepted_params(entry).contains(k.type_id));
        let i = choose|i: int| 0 <= i < accepted_params(entry).len() && accepted_params(entry)[i] == k.type_id;
        assert(accepted_params(entry) == seq![t]);
    }
}

/// Two selects of the same product through the same entry, whose parameters narrow to the
/// same keys, are the same memoization key: their fields compare equal.
pub proof fn lemma_select_memo_equivalence(
    s1: Select, s2: Select, p1: Set<Key>, p2: Set<Key>, product: TypeId, entry: Entry,
)
    requires
        s1.built_from(p1, product, entry),
        s2.built_from(p2, product, entry),
        narrowed(p1, entry) == narrowed(p2, entry),
    ensures
        s1.params.keys_seq() == s2.params.keys_seq(),
        s1.params@ == s2.params@,
        s1.product == s2.product,
        s1.entry == s2.entry,
{
    Params::lemma_same_view_equal(s1.params, s2.params);
}

/// One select per product of `products`, in order, each built from `params` through `edges`.
pub fn select_all(params: &Params, products: &Vec<TypeId>, edges: &EdgeSet, types: &Types) -> (r: Result<Vec<Select>, Failure>)
    requires
        params.wf(),
    ensures
        all_selectable(*edges, products@) ==> (r matches Ok(v) && selects_for(v@, params@, products@, *edges)),
        !all_selectable(*edges, products@) ==> r is Err,
{
    let mut out: Vec<Select> = Vec::new();
    let mut i: usize = 0;
    while i < products.len()
        invariant
            i <= products@.len(),
            params.wf(),
            out@.len() == i,
            forall|j: int| 0 <= j < i ==> lookup(edges.edges@, DependencyKey::JustSelect(#[trigger] products@[j])) is Some,
            forall|j: int| 0 <= j < i ==> (#[trigger] out@[j]).built_from(
                params@, products@[j], lookup(edges.edges@, DependencyKey::JustSelect(products@[j]))->Some_0),
        decreases products@.len() - i,
    {
        let s = Select::new_from_edges(params.duplicate(), products[i], edges, types)?;
        out.push(s);
        i = i + 1;
    }
    Ok(out)
}

} // verus!
