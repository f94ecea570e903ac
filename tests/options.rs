use engine::args::{AliasMap, Arg, Args, OptionId};
use engine::scope::{is_valid_scope_name, GoalInfo, Scope};

fn strs(v: &[&str]) -> Vec<String> {
    v.iter().map(|s| s.to_string()).collect()
}

fn arg(context: Scope, flag: &str, value: Option<&str>) -> Arg {
    Arg { context, flag: flag.to_string(), value: value.map(|s| s.to_string()) }
}

#[test]
fn scope_names() {
    assert!(is_valid_scope_name("foo"));
    assert!(is_valid_scope_name("foo-bar_2"));
    assert!(!is_valid_scope_name("pants"));
    assert!(!is_valid_scope_name("Foo"));
    assert!(!is_valid_scope_name("foo--bar"));
    assert!(!is_valid_scope_name("-foo"));
    assert!(!is_valid_scope_name(""));
}

#[test]
fn scope_named_and_name() {
    assert_eq!(Scope::named(""), Scope::Global);
    assert_eq!(Scope::named("GLOBAL"), Scope::Global);
    assert_eq!(Scope::named("test"), Scope::Scope("test".to_string()));
    assert_eq!(Scope::Global.name(), "GLOBAL");
    assert_eq!(Scope::named("test").name(), "test");
}

#[test]
fn goal_info_new() {
    let g = GoalInfo::new("test", true, false, vec!["t", "tst"]);
    assert_eq!(g.scope_name, "test");
    assert!(g.is_builtin);
    assert!(!g.is_auxiliary);
    assert_eq!(g.aliases, strs(&["t", "tst"]));
}

#[test]
fn args_are_scoped_and_split() {
    let a = Args::new(strs(&["--x=1", "-ldebug", "test", "--y", "-z=2", "src/::", "--w", "--", "a", "--b"]));
    let test = Scope::Scope("test".to_string());
    assert_eq!(
        a.args(),
        &vec![
            arg(Scope::Global, "--x", Some("1")),
            arg(Scope::Global, "-l", Some("debug")),
            arg(test.clone(), "--y", None),
            arg(test, "-z", Some("2")),
            arg(Scope::Global, "--w", None),
        ]
    );
    assert_eq!(a.passthrough_args(), &Some(strs(&["a", "--b"])));
    assert_eq!(a.arg_strs().len(), 10);
}

#[test]
fn args_without_passthrough() {
    let a = Args::new(strs(&["pants", "--x", "-"]));
    assert_eq!(a.args(), &vec![arg(Scope::Global, "--x", None)]);
    assert_eq!(a.passthrough_args(), &None);
    let e = Args::new(vec![]);
    assert!(e.args().is_empty());
}

#[test]
fn args_value_may_hold_equals() {
    let a = Args::new(strs(&["--x=a=b", "-l="]));
    assert_eq!(a.args(), &vec![arg(Scope::Global, "--x", Some("a=b")), arg(Scope::Global, "-l", None)]);
}

#[test]
fn aliases_expand_before_reading() {
    let map = AliasMap { aliases: vec![("green".to_string(), strs(&["lint", "--fix"]))] };
    let a = Args::new(strs(&["green", "--x"]));
    let e = a.expand_aliases(&map);
    assert_eq!(e.arg_strs(), &strs(&["lint", "--fix", "--x"]));
    let lint = Scope::Scope("lint".to_string());
    assert_eq!(e.args(), &vec![arg(lint.clone(), "--fix", None), arg(lint, "--x", None)]);
}

fn option(scope: Scope, name: &[&str], short: Option<&str>) -> OptionId {
    OptionId { scope, name_components: strs(name), short_name: short.map(|s| s.to_string()) }
}

#[test]
fn arg_matching() {
    let test = Scope::Scope("test".to_string());
    let id = option(test.clone(), &["use", "cache"], Some("u"));
    assert!(arg(Scope::Global, "--test-use-cache", None).matches(&id));
    assert!(arg(test.clone(), "--use-cache", None).matches(&id));
    assert!(!arg(Scope::Global, "--use-cache", None).matches(&id));
    assert!(arg(Scope::Global, "-u", None).matches(&id));
    assert!(arg(Scope::Global, "--no-test-use-cache", None).matches_negation(&id));
    assert!(arg(test, "--no-use-cache", None).matches_negation(&id));
    assert!(!arg(Scope::Global, "--test-use-cache", None).matches_negation(&id));
    let global = option(Scope::Global, &["level"], None);
    assert!(arg(Scope::Global, "--level", None).matches(&global));
    assert!(arg(Scope::Global, "--GLOBAL-level", None).matches(&global));
    assert!(!arg(Scope::Global, "-l", None).matches(&global));
}

use engine::args::ArgsReader;

#[test]
fn reader_rightmost_string_wins_and_is_tracked() {
    let mut r = ArgsReader::new(Args::new(strs(&["--level=info", "--other", "--level=debug"])));
    let id = option(Scope::Global, &["level"], None);
    assert_eq!(r.get_string(&id), Ok(Some("debug".to_string())));
    let unused: Vec<String> = r.get_tracker().unconsumed_args().iter().map(|a| a.flag.clone()).collect();
    assert_eq!(unused, strs(&["--level", "--other"]));
    assert_eq!(r.get_string(&option(Scope::Global, &["missing"], None)), Ok(None));
}

#[test]
fn reader_string_without_value_fails() {
    let mut r = ArgsReader::new(Args::new(strs(&["test", "--Level"])));
    let id = option(Scope::Scope("test".to_string()), &["Level"], None);
    assert_eq!(r.get_string(&id), Err("Expected list option --test-level to have a value.".to_string()));
}

#[test]
fn reader_bools_and_negation() {
    let mut r = ArgsReader::new(Args::new(strs(&["--flag", "--no-flag", "--x=False", "--y=maybe"])));
    assert_eq!(r.get_bool(&option(Scope::Global, &["flag"], None)), Ok(Some(false)));
    assert_eq!(r.get_bool(&option(Scope::Global, &["x"], None)), Ok(Some(false)));
    assert!(r.get_bool(&option(Scope::Global, &["y"], None)).is_err());
    assert_eq!(r.get_bool(&option(Scope::Global, &["z"], None)), Ok(None));
    let unused: Vec<String> = r.get_tracker().unconsumed_args().iter().map(|a| a.flag.clone()).collect();
    assert_eq!(unused, strs(&["--flag"]));
}

#[test]
fn reader_display_and_accessors() {
    let r = ArgsReader::new(Args::new(strs(&["a", "--", "b"])));
    assert_eq!(r.display(&option(Scope::Scope("Foo".to_string()), &["Bar", "baz"], None)), "--foo-bar-baz");
    assert_eq!(r.display(&option(Scope::Global, &["x"], None)), "--x");
    assert_eq!(r.get_args(), strs(&["a", "--", "b"]));
    assert_eq!(r.get_passthrough_args(), Some(strs(&["b"])));
    let map = AliasMap { aliases: vec![("a".to_string(), strs(&["--q"]))] };
    let e = r.expand_aliases(&map);
    assert_eq!(e.get_args(), strs(&["--q", "--", "b"]));
}

#[test]
fn reader_unconsumed_flags_by_scope() {
    let mut r = ArgsReader::new(Args::new(strs(&["--zeta", "--alpha", "test", "--b", "--a", "src/::", "--mid"])));
    assert_eq!(r.get_string(&option(Scope::Global, &["alpha"], None)), Err("Expected list option --alpha to have a value.".to_string()));
    let groups = r.get_tracker().get_unconsumed_flags();
    assert_eq!(
        groups,
        vec![
            (Scope::Global, strs(&["--mid", "--zeta"])),
            (Scope::Scope("test".to_string()), strs(&["--a", "--b"])),
        ]
    );
}
