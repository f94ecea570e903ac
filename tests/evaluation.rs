use std::sync::Arc;

use engine::failure::Failure;
use engine::params::{Key, Params, TypeId};
use engine::rules::{
    DependencyKey, DisplayInfo, EdgeSet, Entry, Function, InnerEntry, Intrinsic, Rule, RuleGraph,
    TaskRule, Types,
};
use engine::select::{Select, SelectStep};
use engine::task::{
    GeneratorResponse, GeneratorStep, Get, GetError, Task, TaskOutcome,
};

const FOO: TypeId = TypeId(1);
const BAR: TypeId = TypeId(2);
const BAZ: TypeId = TypeId(3);
const UNION: TypeId = TypeId(4);
const X: TypeId = TypeId(5);
const A: TypeId = TypeId(6);
const B: TypeId = TypeId(7);
const COROUTINE: TypeId = TypeId(100);

fn types() -> Types {
    Types {
        coroutine: COROUTINE,
        unions: vec![UNION],
        names: vec![
            (FOO, "Foo".to_string()),
            (BAR, "Bar".to_string()),
            (BAZ, "Baz".to_string()),
            (UNION, "Union".to_string()),
            (X, "X".to_string()),
            (A, "A".to_string()),
            (B, "B".to_string()),
        ],
    }
}

fn key(id: u64, t: TypeId) -> Key {
    Key { id, type_id: t }
}

fn message(f: &Failure) -> String {
    match f {
        Failure::Throw { message, .. } => message.clone(),
        Failure::Invalidated => panic!("expected a Throw"),
    }
}

fn task_rule(name: &str, clause: Vec<TypeId>, product: TypeId) -> Arc<TaskRule> {
    Arc::new(TaskRule {
        func: Function { key: key(1000, TypeId(999)), name: name.to_string() },
        clause,
        product,
        gets: vec![],
        cacheable: true,
        display_info: DisplayInfo { name: None, desc: None },
    })
}

fn inner(id: usize, params: Vec<TypeId>, rule: Rule) -> Entry {
    Entry::Inner(Arc::new(InnerEntry { id, params, rule }))
}

#[test]
fn param_passthrough_returns_the_param() {
    let params = Params::from_keys(vec![key(7, FOO), key(8, BAR)]);
    let s = Select::new(params, FOO, Entry::Param(FOO));
    assert_eq!(s.params.len(), 1);
    match s.step(&RuleGraph { edge_sets: vec![] }, &types()) {
        Ok(SelectStep::Value(k)) => assert_eq!(k, key(7, FOO)),
        other => panic!("unexpected {:?}", other),
    }
}

#[test]
fn param_passthrough_missing_param_throws() {
    let s = Select::new(Params::new(), FOO, Entry::Param(FOO));
    match s.step(&RuleGraph { edge_sets: vec![] }, &types()) {
        Err(f) => assert_eq!(message(&f), "Expected a Param of type Foo to be present."),
        other => panic!("unexpected {:?}", other),
    }
}

fn simple_task_graph() -> (Entry, RuleGraph) {
    let rule = task_rule("bar", vec![FOO], BAR);
    let entry = inner(0, vec![FOO], Rule::Task(rule));
    let graph = RuleGraph {
        edge_sets: vec![EdgeSet { edges: vec![(DependencyKey::JustSelect(FOO), Entry::Param(FOO))] }],
    };
    (entry, graph)
}

fn run_to_task(params: Params) -> (Task, RuleGraph) {
    let (entry, graph) = simple_task_graph();
    let s = Select::new(params, BAR, entry);
    match s.step(&graph, &types()) {
        Ok(SelectStep::RunTask(t)) => (t, graph),
        other => panic!("unexpected {:?}", other),
    }
}

#[test]
fn simple_task_adds_one() {
    let (task, graph) = run_to_task(Params::from_keys(vec![key(3, FOO)]));
    let deps = task.dependencies(&graph, &types()).unwrap();
    assert_eq!(deps.len(), 1);
    let x = match deps[0].step(&graph, &types()) {
        Ok(SelectStep::Value(k)) => k,
        other => panic!("unexpected {:?}", other),
    };
    assert_eq!(x.id, 3);
    // The host body computes x + 1.
    let result = key(x.id + 1, BAR);
    assert_eq!(task.check_result(result, false, &types()), Ok(TaskOutcome::Done(key(4, BAR))));
}

#[test]
fn simple_task_wrong_result_type_throws() {
    let (task, _) = run_to_task(Params::from_keys(vec![key(3, FOO)]));
    let err = task.check_result(key(4, BAZ), false, &types()).unwrap_err();
    assert!(message(&err).contains("did not satisfy its constraints"));
    assert_eq!(message(&err), "bar returned a result value that did not satisfy its constraints: Baz");
}

#[test]
fn task_returning_generator_starts_dialogue() {
    let (task, _) = run_to_task(Params::from_keys(vec![key(3, FOO)]));
    let g = key(50, COROUTINE);
    assert_eq!(task.check_result(g, false, &types()), Ok(TaskOutcome::Generate(g)));
}

#[test]
fn task_params_are_narrowed_to_the_rule() {
    let (task, _) = run_to_task(Params::from_keys(vec![key(3, FOO), key(9, BAZ)]));
    assert_eq!(task.params.len(), 1);
    assert_eq!(task.params.key_at(0), key(3, FOO));
}

#[test]
fn intrinsic_inputs_are_positional() {
    let intrinsic = Arc::new(Intrinsic { product: FOO, inputs: vec![A, B] });
    let entry = inner(0, vec![A, B], Rule::Intrinsic(intrinsic));
    let graph = RuleGraph {
        edge_sets: vec![EdgeSet {
            edges: vec![
                (DependencyKey::JustSelect(B), Entry::Param(B)),
                (DependencyKey::JustSelect(A), Entry::Param(A)),
            ],
        }],
    };
    let s = Select::new(Params::from_keys(vec![key(10, A), key(11, B)]), FOO, entry);
    match s.step(&graph, &types()) {
        Ok(SelectStep::RunIntrinsic { intrinsic, inputs }) => {
            assert_eq!(intrinsic.inputs, vec![A, B]);
            assert_eq!(inputs.len(), 2);
            assert_eq!(inputs[0].product, A);
            assert_eq!(inputs[1].product, B);
            let values: Vec<Key> = inputs
                .iter()
                .map(|i| match i.step(&graph, &types()) {
                    Ok(SelectStep::Value(k)) => k,
                    other => panic!("unexpected {:?}", other),
                })
                .collect();
            assert_eq!(values, vec![key(10, A), key(11, B)]);
        }
        other => panic!("unexpected {:?}", other),
    }
}

#[test]
fn intrinsic_with_missing_edge_throws() {
    let intrinsic = Arc::new(Intrinsic { product: FOO, inputs: vec![A] });
    let entry = inner(0, vec![A], Rule::Intrinsic(intrinsic));
    let graph = RuleGraph { edge_sets: vec![EdgeSet { edges: vec![] }] };
    let s = Select::new(Params::new(), FOO, entry);
    let err = s.step(&graph, &types()).unwrap_err();
    assert_eq!(message(&err), "No rule was declared to compute A");
}

#[test]
fn root_entry_is_not_executable() {
    let s = Select::new(Params::new(), FOO, Entry::Root(Arc::new(vec![FOO])));
    let err = s.step(&RuleGraph { edge_sets: vec![] }, &types()).unwrap_err();
    assert_eq!(message(&err), "Not a runtime-executable entry");
}

fn generator_task() -> (Task, RuleGraph) {
    // A rule producing Baz whose body asks for Foo given a Bar.
    let foo_rule = task_rule("make_foo", vec![BAR], FOO);
    let foo_entry = inner(1, vec![BAR], Rule::Task(foo_rule));
    let rule = task_rule("gen", vec![], BAZ);
    let entry = inner(0, vec![BAR, X], Rule::Task(rule.clone()));
    let graph = RuleGraph {
        edge_sets: vec![
            EdgeSet {
                edges: vec![(DependencyKey::JustGet { product: FOO, subject: BAR }, foo_entry)],
            },
            EdgeSet { edges: vec![(DependencyKey::JustSelect(BAR), Entry::Param(BAR))] },
        ],
    };
    let task = Task {
        params: Params::from_keys(vec![key(1, BAR), key(2, X)]),
        product: BAZ,
        task: rule,
        entry,
    };
    (task, graph)
}

#[test]
fn generator_get_widens_params_with_subject() {
    let (task, graph) = generator_task();
    let get = Get { product: FOO, subject: key(42, BAR), declared_subject: None };
    let sel = match task.generator_step(GeneratorResponse::Get(get), &graph, &types()) {
        Ok(GeneratorStep::Request(s)) => s,
        other => panic!("unexpected {:?}", other),
    };
    assert_eq!(sel.product, FOO);
    assert_eq!(sel.params.len(), 1);
    assert_eq!(sel.params.find(BAR), Some(key(42, BAR)));
    // The sub-rule runs with the subject as its Bar.
    let sub = match sel.step(&graph, &types()) {
        Ok(SelectStep::RunTask(t)) => t,
        other => panic!("unexpected {:?}", other),
    };
    let deps = sub.dependencies(&graph, &types()).unwrap();
    match deps[0].step(&graph, &types()) {
        Ok(SelectStep::Value(k)) => assert_eq!(k, key(42, BAR)),
        other => panic!("unexpected {:?}", other),
    }
    // The generator then breaks with its result.
    match task.generator_step(GeneratorResponse::Break(key(77, BAZ)), &graph, &types()) {
        Ok(GeneratorStep::Finish(v)) => assert_eq!(v, key(77, BAZ)),
        other => panic!("unexpected {:?}", other),
    }
}

#[test]
fn generator_break_of_wrong_type_throws() {
    let (task, graph) = generator_task();
    match task.generator_step(GeneratorResponse::Break(key(77, FOO)), &graph, &types()) {
        Err(GetError::Failed(f)) => assert!(message(&f).contains("did not satisfy its constraints")),
        other => panic!("unexpected {:?}", other),
    }
}

#[test]
fn generator_get_multi_keeps_order() {
    let (task, graph) = generator_task();
    let gets = vec![
        Get { product: FOO, subject: key(1, BAR), declared_subject: None },
        Get { product: FOO, subject: key(2, BAR), declared_subject: None },
    ];
    match task.generator_step(GeneratorResponse::GetMulti(gets), &graph, &types()) {
        Ok(GeneratorStep::RequestMulti(sels)) => {
            assert_eq!(sels.len(), 2);
            assert_eq!(sels[0].params.find(BAR), Some(key(1, BAR)));
            assert_eq!(sels[1].params.find(BAR), Some(key(2, BAR)));
        }
        other => panic!("unexpected {:?}", other),
    }
}

#[test]
fn generator_undeclared_get_throws() {
    let (task, graph) = generator_task();
    let get = Get { product: BAZ, subject: key(1, X), declared_subject: None };
    match task.generator_step(GeneratorResponse::Get(get), &graph, &types()) {
        Err(GetError::Failed(f)) => {
            assert_eq!(message(&f), "gen did not declare a dependency on JustGet(Baz, X)")
        }
        other => panic!("unexpected {:?}", other),
    }
}

#[test]
fn missing_union_member_uses_host_message() {
    let (task, graph) = generator_task();
    let get = Get { product: FOO, subject: key(1, X), declared_subject: Some(UNION) };
    let err = task.generator_step(GeneratorResponse::Get(get), &graph, &types());
    let (subject, union_type) = match err {
        Err(GetError::NotUnionMember { subject, union_type }) => (subject, union_type),
        other => panic!("unexpected {:?}", other),
    };
    assert_eq!(subject, key(1, X));
    assert_eq!(union_type, UNION);
    let f = Task::non_member_failure(Some("X is not one of A|B".to_string()), X, UNION, &types());
    assert_eq!(message(&f), "X is not one of A|B");
    let f = Task::non_member_failure(None, X, UNION, &types());
    assert_eq!(message(&f), "Type X is not a member of the Union @union");
}

#[test]
fn select_from_edges_missing_edge_throws() {
    let edges = EdgeSet { edges: vec![] };
    let err = Select::new_from_edges(Params::new(), FOO, &edges, &types()).unwrap_err();
    assert_eq!(message(&err), "No rule was declared to compute Foo");
}

#[test]
fn unnamed_type_renders_its_number() {
    let t = Types { coroutine: COROUTINE, unions: vec![], names: vec![] };
    let s = Select::new(Params::new(), TypeId(42), Entry::Param(TypeId(42)));
    let err = s.step(&RuleGraph { edge_sets: vec![] }, &t).unwrap_err();
    assert_eq!(message(&err), "Expected a Param of type 42 to be present.");
}

#[test]
fn cycle_of_three_is_reported() {
    let f = Failure::cyclic(vec!["A".to_string(), "B".to_string(), "C".to_string()]);
    assert_eq!(message(&f), "Dep graph contained a cycle:\n  A <-\n  B\n  C <-");
}

#[test]
fn cycle_of_one_is_not_marked() {
    let f = Failure::cyclic(vec!["A".to_string()]);
    assert_eq!(message(&f), "Dep graph contained a cycle:\n  A");
}

#[test]
fn cycle_of_two_marks_both() {
    let f = Failure::cyclic(vec!["A".to_string(), "B".to_string()]);
    assert_eq!(message(&f), "Dep graph contained a cycle:\n  A <-\n  B <-");
}

#[test]
fn exhausted_and_invalidated() {
    assert_eq!(
        message(&Failure::exhausted()),
        "Exhausted retries for uncacheable node. The filesystem was changing too much."
    );
    assert_eq!(Failure::invalidated(), Failure::Invalidated);
    assert!(!Failure::invalidated().is_throw());
}
