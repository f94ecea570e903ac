//! Running a user rule, including the dialogue with a generator body.

use std::sync::Arc;
use vstd::prelude::*;
use crate::failure::{Failure, throw, is_throw_of};
use crate::params::{Key, Params, TypeId, Value, put_set};
use crate::rules::{DependencyKey, EdgeSet, Entry, RuleGraph, TaskRule, Types, edges_of, lookup};
use crate::select::{Select, all_selectable, select_all, selects_for};
use crate::text::{concat, owned};

verus! {

/// A node that runs the body of a user rule for `params`.
#[derive(Clone, Debug, PartialEq, Eq, Hash)]
pub struct Task {
    pub params: Params,
    pub product: TypeId,
    pub task: Arc<TaskRule>,
    pub entry: Entry,
}

/// A request, made by a generator body, for `product` computed for `subject`.
#[derive(Clone, Copy, Debug, PartialEq, Eq, Hash, Structural)]
pub struct Get {
    pub product: TypeId,
    pub subject: Key,
    /// The declared type of the subject, where the body declared one.
    pub declared_subject: Option<TypeId>,
}

/// What a generator body answers when advanced.
#[derive(Clone, Debug, PartialEq, Eq)]
pub enum GeneratorResponse {
    Get(Get),
    GetMulti(Vec<Get>),
    Break(Value),
}

/// What to do with the value a rule body returned.
#[derive(Clone, Copy, Debug, PartialEq, Eq, Structural)]
pub enum TaskOutcome {
    /// The body returned its product.
    Done(Value),
    /// The body returned a generator: start the dialogue with it.
    Generate(Value),
}

/// What the dialogue with a generator asks for next.
#[derive(Clone, Debug)]
pub enum GeneratorStep {
    /// Run this select and send its value back.
    Request(Select),
    /// Run these selects in parallel and send back their values, in order, as a tuple.
    RequestMulti(Vec<Select>),
    /// The dialogue is over with this result.
    Finish(Value),
}

/// Why a `Get` could not be resolved.
#[derive(Clone, Debug)]
pub enum GetError {
    /// The subject is not a member of the declared union: the host is asked for the message.
    NotUnionMember { subject: Key, union_type: TypeId },
    /// Any other failure.
    Failed(Failure),
}

/// The dependency key that a `Get` is looked up under.
pub open spec fn get_key(g: Get) -> DependencyKey {
    DependencyKey::JustGet { product: g.product, subject: g.subject.type_id }
}

/// Message for a rule result of the wrong type.
pub open spec fn constraint_message(rule: TaskRule, types: Types, got: TypeId) -> Seq<char> {
    rule.func.name@ + " returned a result value that did not satisfy its constraints: "@
        + types.name_of(got)
}

/// Message for a `Get` that the rule did not declare.
pub open spec fn undeclared_get_message(rule: TaskRule, types: Types, g: Get) -> Seq<char> {
    rule.func.name@ + " did not declare a dependency on JustGet("@ + types.name_of(g.product)
        + ", "@ + types.name_of(g.subject.type_id) + ")"@
}

/// Message for a subject outside a union, when the host gave none.
pub open spec fn non_member_message(types: Types, subject: TypeId, union_type: TypeId) -> Seq<char> {
    "Type "@ + types.name_of(subject) + " is not a member of the "@ + types.name_of(union_type)
        + " @union"@
}

/// Message for a task whose entry has no edges.
pub open spec fn task_without_edges_message() -> Seq<char> {
    "No edges exist for the task's entry"@
}

/// `s` is the select that resolves `g` for a task with `params`, through `edges`.
pub open spec fn resolves_get(s: Select, params: Set<Key>, g: Get, edges: EdgeSet) -> bool {
    &&& lookup(edges.edges@, get_key(g)) is Some
    &&& s.built_from(put_set(params, g.subject), g.product, lookup(edges.edges@, get_key(g))->Some_0)
}

/// What is owed when `g` has no edge.
pub open spec fn missing_get_error(e: GetError, rule: TaskRule, types: Types, g: Get) -> bool {
    match g.declared_subject {
        Some(u) if types.unions@.contains(u) => e == GetError::NotUnionMember { subject: g.subject, union_type: u },
        _ => e matches GetError::Failed(f) && is_throw_of(f, undeclared_get_message(rule, types, g)),
    }
}

/// Every get of `gets` has an edge in `edges`.
pub open spec fn all_resolvable(edges: EdgeSet, gets: Seq<Get>) -> bool {
    forall|i: int| 0 <= i < gets.len() ==> lookup(edges.edges@, get_key(#[trigger] gets[i])) is Some
}

/// After resolving a `Get` whose subject has a type that the target entry accepts, the
/// sub-select's parameters hold exactly one key of that type: the subject.
pub proof fn lemma_get_subject_replaces(s: Select, params: Set<Key>, g: Get, edges: EdgeSet)
    requires
        resolves_get(s, params, g, edges),
        crate::rules::accepted_params(s.entry).contains(g.subject.type_id),
    ensures
        s.params@.contains(g.subject),
        forall|k: Key| s.params@.contains(k) && k.type_id == g.subject.type_id ==> k == g.subject,
{
}

impl Task {
    /// The selects for the rule's clause, in declaration order.
    pub fn dependencies(&self, graph: &RuleGraph, types: &Types) -> (r: Result<Vec<Select>, Failure>)
        requires
            self.params.wf(),
        ensures
            match edges_of(*graph, self.entry) {
                None => r matches Err(f) && is_throw_of(f, task_without_edges_message()),
                Some(edges) => if all_selectable(edges, self.task.clause@) {
                    r matches Ok(v) && selects_for(v@, self.params@, self.task.clause@, edges)
                } else {
                    r is Err
                },
            },
    {
        match graph.edges_for_inner(&self.entry) {
            None => Err(throw(owned("No edges exist for the task's entry"))),
            Some(edges) => select_all(&self.params, &self.task.clause, edges, types),
        }
    }

    /// Checks a value the rule produced: its product, or (unless `generated`) a generator.
    pub fn check_result(&self, result: Value, generated: bool, types: &Types) -> (r: Result<TaskOutcome, Failure>)
        ensures
            !generated && result.type_id == types.coroutine ==> r == Ok::<TaskOutcome, Failure>(TaskOutcome::Generate(result)),
            (generated || result.type_id != types.coroutine) && result.type_id == self.product
                ==> r == Ok::<TaskOutcome, Failure>(TaskOutcome::Done(result)),
            (generated || result.type_id != types.coroutine) && result.type_id != self.product
                ==> (r matches Err(f) && is_throw_of(f, constraint_message(*self.task, *types, result.type_id))),
    {
        if !generated && result.type_id.0 == types.coroutine.0 {
            Ok(TaskOutcome::Generate(result))
        } else if result.type_id.0 == self.product.0 {
            Ok(TaskOutcome::Done(result))
        } else {
            let name = types.display_name(result.type_id);
            let msg = concat(self.task.func.name.as_str(), " returned a result value that did not satisfy its constraints: ");
            Err(throw(concat(msg.as_str(), name.as_str())))
        }
    }

    /// The select that resolves `g`: the subject replaces any parameter of its type.
    pub fn resolve_get(&self, g: Get, graph: &RuleGraph, types: &Types) -> (r: Result<Select, GetError>)
        requires
            self.params.wf(),
        ensures
            match edges_of(*graph, self.entry) {
                None => r matches Err(GetError::Failed(f)) && is_throw_of(f, task_without_edges_message()),
                Some(edges) => match lookup(edges.edges@, get_key(g)) {
                    Some(_) => r matches Ok(s) && resolves_get(s, self.params@, g, edges),
                    None => r matches Err(e) && missing_get_error(e, *self.task, *types, g),
                },
            },
    {
        let edges = match graph.edges_for_inner(&self.entry) {
            None => { return Err(GetError::Failed(throw(owned("No edges exist for the task's entry")))); },
            Some(edges) => edges,
        };
        let key = DependencyKey::JustGet { product: g.product, subject: g.subject.type_id };
        match edges.entry_for(key) {
            Some(e) => {
                let mut params = self.params.duplicate();
                params.put(g.subject);
                Ok(Select::new(params, g.product, e))
            },
            None => {
                if let Some(u) = g.declared_subject {
                    if types.is_union(u) {
                        return Err(GetError::NotUnionMember { subject: g.subject, union_type: u });
                    }
                }
                let m1 = concat(self.task.func.name.as_str(), " did not declare a dependency on JustGet(");
                let p = types.display_name(g.product);
                let m2 = concat(m1.as_str(), p.as_str());
                let m3 = concat(m2.as_str(), ", ");
                let st = types.display_name(g.subject.type_id);
                let m4 = concat(m3.as_str(), st.as_str());
                Err(GetError::Failed(throw(concat(m4.as_str(), ")"))))
            },
        }
    }

    /// The failure for a subject outside a union: the host's message where it gave one,
    /// else a generic one.
    pub fn non_member_failure(host_message: Option<String>, subject: TypeId, union_type: TypeId, types: &Types) -> (r: Failure)
        ensures
            match host_message {
                Some(m) => is_throw_of(r, m@),
                None => is_throw_of(r, non_member_message(*types, subject, union_type)),
            },
    {
        match host_message {
            Some(m) => throw(m),
            None => {
                let s = types.display_name(subject);
                let u = types.display_name(union_type);
                let m1 = concat("Type ", s.as_str());
                let m2 = concat(m1.as_str(), " is not a member of the ");
                let m3 = concat(m2.as_str(), u.as_str());
                throw(concat(m3.as_str(), " @union"))
            },
        }
    }

    /// The selects that resolve `gets`, in order.
    pub fn resolve_gets(&self, gets: &Vec<Get>, graph: &RuleGraph, types: &Types) -> (r: Result<Vec<Select>, GetError>)
        requires
            self.params.wf(),
        ensures
            match edges_of(*graph, self.entry) {
                None => r is Err,
                Some(edges) => if all_resolvable(edges, gets@) {
                    r matches Ok(sels) && sels@.len() == gets@.len()
                        && forall|i: int| 0 <= i < gets@.len() ==> resolves_get(#[trigger] sels@[i], self.params@, gets@[i], edges)
                } else {
                    r is Err
                },
            },
    {
        let ghost edges = edges_of(*graph, self.entry);
        if graph.edges_for_inner(&self.entry).is_none() {
            return Err(GetError::Failed(throw(owned("No edges exist for the task's entry"))));
        }
        let mut sels: Vec<Select> = Vec::new();
        let mut i: usize = 0;
        while i < gets.len()
            invariant
                i <= gets@.len(),
                self.params.wf(),
                edges == edges_of(*graph, self.entry),
                edges is Some,
                sels@.len() == i,
                forall|j: int| 0 <= j < i ==> lookup(edges->Some_0.edges@, get_key(#[trigger] gets@[j])) is Some,
                forall|j: int| 0 <= j < i ==> resolves_get(#[trigger] sels@[j], self.params@, gets@[j], edges->Some_0),
            decreases gets@.len() - i,
        {
            let s = match self.resolve_get(gets[i], graph, types) {
                Ok(s) => s,
                Err(e) => {
                    proof {
                        assert(lookup(edges->Some_0.edges@, get_key(gets@[i as int])) is None);
                    }
                    return Err(e);
                },
            };
            sels.push(s);
            i = i + 1;
        }
        Ok(sels)
    }

    /// What a generator's response asks for next.
    pub fn generator_step(&self, response: GeneratorResponse, graph: &RuleGraph, types: &Types) -> (r: Result<GeneratorStep, GetError>)
        requires
            self.params.wf(),
        ensures
            match response {
                GeneratorResponse::Break(v) => if v.type_id == self.product {
                    r matches Ok(GeneratorStep::Finish(w)) && w == v
                } else {
                    r matches Err(GetError::Failed(f)) && is_throw_of(f, constraint_message(*self.task, *types, v.type_id))
                },
                GeneratorResponse::Get(g) => match edges_of(*graph, self.entry) {
                    None => r is Err,
                    Some(edges) => match lookup(edges.edges@, get_key(g)) {
                        Some(_) => r matches Ok(GeneratorStep::Request(s)) && resolves_get(s, self.params@, g, edges),
                        None => r matches Err(e) && missing_get_error(e, *self.task, *types, g),
                    },
                },
                GeneratorResponse::GetMulti(gets) => match edges_of(*graph, self.entry) {
                    None => r is Err,
                    Some(edges) => if all_resolvable(edges, gets@) {
                        r matches Ok(GeneratorStep::RequestMulti(sels)) && sels@.len() == gets@.len()
                            && forall|i: int| 0 <= i < gets@.len() ==> resolves_get(#[trigger] sels@[i], self.params@, gets@[i], edges)
                    } else {
                        r is Err
                    },
                },
            },
    {
        match response {
            GeneratorResponse::Break(v) => {
                match self.check_result(v, true, types) {
                    Ok(_) => Ok(GeneratorStep::Finish(v)),
                    Err(f) => Err(GetError::Failed(f)),
                }
            },
            GeneratorResponse::Get(g) => {
                let s = self.resolve_get(g, graph, types)?;
                Ok(GeneratorStep::Request(s))
            },
            GeneratorResponse::GetMulti(gets) => {
                let sels = self.resolve_gets(&gets, graph, types)?;
                Ok(GeneratorStep::RequestMulti(sels))
            },
        }
    }
}

} // verus!
