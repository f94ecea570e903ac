use engine::digest::{lift_digest, parse_usize, Digest, Fingerprint};
use engine::download::{DownloadedFile, SizeLimiter};
use engine::failure::Failure;
use engine::node::{
    Dir, File, Link, NodeKey, NodeResult, PathStat, ReadLink, Scandir, Snapshot, StoreSnapshot,
    Tracer, Visualizer, WorkunitState, DigestFile, LinkDest,
};
use engine::params::{Key, TypeId};
use engine::process::{
    lift_env, lift_execute_process, MultiPlatformExecuteProcess, PlatformConstraint, ProcessFields,
    FallibleProcessResultWithPlatform,
};
use engine::params::Params;
use engine::rules::{DisplayInfo, Entry, Function, TaskRule, Types};
use engine::select::Select;
use engine::task::Task;
use std::sync::Arc;
use engine::snapshot::{GlobExpansionConjunction, StrictGlobMatching};

const HELLO_SHA: &str = "2cf24dba5fb0a30e26e83b2ac5b9e29e1b161e5c1fa7425e73043362938b9824";
const EMPTY_SHA: &str = "e3b0c44298fc1c149afbf4c8996fb92427ae41e4649b934ca495991b7852b855";

fn message(f: &Failure) -> String {
    match f {
        Failure::Throw { message, .. } => message.clone(),
        Failure::Invalidated => panic!("expected a Throw"),
    }
}

fn types() -> Types {
    Types { coroutine: TypeId(100), unions: vec![], names: vec![(TypeId(1), "Foo".to_string())] }
}

#[test]
fn digest_of_bytes_is_sha256_and_length() {
    let d = Digest::of_bytes(b"hello");
    assert_eq!(d.0.to_hex(), HELLO_SHA);
    assert_eq!(d.1, 5);
    assert_eq!(Digest::of_bytes(b"").0.to_hex(), EMPTY_SHA);
}

#[test]
fn fingerprint_hex_round_trip() {
    let f = Fingerprint::from_hex_string(HELLO_SHA).unwrap();
    assert_eq!(f.to_hex(), HELLO_SHA);
    let upper = Fingerprint::from_hex_string(&HELLO_SHA.to_uppercase()).unwrap();
    assert_eq!(upper, f);
    assert!(Fingerprint::from_hex_string("abc").is_err());
    assert!(Fingerprint::from_hex_string(&"g".repeat(64)).is_err());
}

#[test]
fn lift_digest_parses_both_fields() {
    let d = lift_digest(HELLO_SHA, "5").unwrap();
    assert_eq!(d, Digest::of_bytes(b"hello"));
    assert_eq!(lift_digest(HELLO_SHA, "x").unwrap_err(), "Length was not a usize: x");
    assert!(lift_digest("zz", "5").is_err());
}

#[test]
fn parse_usize_edges() {
    assert_eq!(parse_usize("0"), Some(0));
    assert_eq!(parse_usize("+12"), Some(12));
    assert_eq!(parse_usize(""), None);
    assert_eq!(parse_usize("+"), None);
    assert_eq!(parse_usize("-1"), None);
    assert_eq!(parse_usize("18446744073709551615"), Some(usize::MAX));
    assert_eq!(parse_usize("18446744073709551616"), None);
}

#[test]
fn download_within_limit_and_matching_digest_is_kept() {
    let expected = Digest::of_bytes(b"hello");
    let mut sink = SizeLimiter::new(expected.1);
    sink.write(b"hel").unwrap();
    sink.write(b"lo").unwrap();
    assert_eq!(sink.finish(&expected).unwrap(), b"hello".to_vec());
}

#[test]
fn downloaded_file_digest_mismatch() {
    let expected = Digest::of_bytes(b"hellp");
    let mut sink = SizeLimiter::new(expected.1);
    sink.write(b"hello").unwrap();
    let err = sink.finish(&expected).unwrap_err();
    let want = format!("Digest(Fingerprint<{}>, 5)", expected.0.to_hex());
    let got = format!("Digest(Fingerprint<{}>, 5)", HELLO_SHA);
    assert_eq!(err, format!("Wrong digest for downloaded file: want {} got {}", want, got));
}

#[test]
fn oversized_download_fails() {
    let expected = Digest::of_bytes(b"hi");
    let mut sink = SizeLimiter::new(expected.1);
    sink.write(b"h").unwrap();
    let err = sink.write(b"ello").unwrap_err();
    assert!(err.contains("Downloaded file was larger than expected digest"));
    sink.write(b"i").unwrap();
    assert_eq!(sink.finish(&expected).unwrap(), b"hi".to_vec());
}

#[test]
fn download_request_takes_last_path_segment() {
    let req = DownloadedFile::prepare("https://example.com/a/b/file.zip", HELLO_SHA, "5").unwrap();
    assert_eq!(req.file_name, "file.zip");
    assert_eq!(req.url, "https://example.com/a/b/file.zip");
    assert_eq!(req.digest, Digest::of_bytes(b"hello"));
}

#[test]
fn download_request_with_bad_url() {
    let err = DownloadedFile::prepare("not a url", HELLO_SHA, "5").unwrap_err();
    assert!(message(&err).starts_with("Error parsing URL not a url: "));
}

#[test]
fn download_request_with_bad_digest() {
    let err = DownloadedFile::prepare("https://example.com/f", HELLO_SHA, "five").unwrap_err();
    assert_eq!(message(&err), "Length was not a usize: five");
}

#[test]
fn http_status_errors() {
    assert_eq!(
        DownloadedFile::check_status(503, "f.zip", "https://x/f.zip").unwrap_err(),
        "Server error (503) downloading file f.zip from https://x/f.zip"
    );
    assert_eq!(
        DownloadedFile::check_status(404, "f.zip", "https://x/f.zip").unwrap_err(),
        "Client error (404) downloading file f.zip from https://x/f.zip"
    );
    assert!(DownloadedFile::check_status(200, "f.zip", "https://x/f.zip").is_ok());
    assert!(DownloadedFile::check_status(302, "f.zip", "https://x/f.zip").is_ok());
}

fn fields(description: &str) -> ProcessFields {
    ProcessFields {
        argv: vec!["/bin/echo".to_string(), "hi".to_string()],
        env: vec!["B".to_string(), "2".to_string(), "A".to_string(), "1".to_string(), "B".to_string(), "3".to_string()],
        working_directory: String::new(),
        input_digest_fingerprint: EMPTY_SHA.to_string(),
        input_digest_length: "0".to_string(),
        output_files: vec!["out.txt".to_string()],
        output_directories: vec![],
        timeout_millis: Some(1500),
        description: description.to_string(),
        jdk_home: "/jdk".to_string(),
        is_nailgunnable: false,
        unsafe_local_only_files_fingerprint: EMPTY_SHA.to_string(),
        unsafe_local_only_files_length: "0".to_string(),
    }
}

#[test]
fn env_is_ordered_and_keeps_last_value() {
    let parts: Vec<String> = ["B", "2", "A", "1", "B", "3"].iter().map(|s| s.to_string()).collect();
    let env = lift_env(&parts).unwrap();
    assert_eq!(env, vec![("A".to_string(), "1".to_string()), ("B".to_string(), "3".to_string())]);
    assert_eq!(lift_env(&vec!["A".to_string()]).unwrap_err(), "Error parsing env: odd number of parts");
}

#[test]
fn lift_one_process() {
    let p = lift_execute_process(&fields("echo"), PlatformConstraint::Linux).unwrap();
    assert_eq!(p.argv, vec!["/bin/echo".to_string(), "hi".to_string()]);
    assert_eq!(p.working_directory, None);
    assert_eq!(p.jdk_home, Some("/jdk".to_string()));
    assert_eq!(p.timeout_millis, Some(1500));
    assert_eq!(p.input_files, Digest::of_bytes(b""));
    assert_eq!(p.target_platform, PlatformConstraint::Linux);
    let mut bad = fields("echo");
    bad.input_digest_length = "-1".to_string();
    assert!(lift_execute_process(&bad, PlatformConstraint::Linux).unwrap_err().starts_with("Error parsing digest "));
}

#[test]
fn lift_multi_platform_orders_by_platform_pair() {
    let constraints: Vec<String> = ["none", "none", "darwin", "linux"].iter().map(|s| s.to_string()).collect();
    let m = MultiPlatformExecuteProcess::lift(&constraints, &vec![fields("any"), fields("cross")]).unwrap();
    let requests = &(m.0).0;
    assert_eq!(requests.len(), 2);
    assert_eq!(requests[0].0, (PlatformConstraint::Darwin, PlatformConstraint::Linux));
    assert_eq!(requests[0].1.description, "cross");
    assert_eq!(requests[0].1.target_platform, PlatformConstraint::Linux);
    assert_eq!(requests[1].0, (PlatformConstraint::Unconstrained, PlatformConstraint::Unconstrained));
    assert_eq!(m.user_facing_name(), Some("cross".to_string()));
}

#[test]
fn lift_multi_platform_errors() {
    let odd: Vec<String> = vec!["none".to_string()];
    assert_eq!(
        MultiPlatformExecuteProcess::lift(&odd, &vec![]).unwrap_err(),
        "Error parsing platform_constraints: odd number of parts"
    );
    let two: Vec<String> = vec!["none".to_string(), "none".to_string()];
    assert_eq!(
        MultiPlatformExecuteProcess::lift(&two, &vec![]).unwrap_err(),
        "Sizes of constraint keys and processes do not match: 1 vs. 0"
    );
    let unknown: Vec<String> = vec!["none".to_string(), "plan9".to_string()];
    assert!(MultiPlatformExecuteProcess::lift(&unknown, &vec![fields("x")]).is_err());
}

#[test]
fn process_run_outcomes() {
    let err = MultiPlatformExecuteProcess::check_compatible(false).unwrap_err();
    assert_eq!(message(&err), "No compatible platform found for request");
    assert!(MultiPlatformExecuteProcess::check_compatible(true).is_ok());
    let err = MultiPlatformExecuteProcess::finish(Err("boom".to_string())).unwrap_err();
    assert_eq!(message(&err), "Failed to execute process: boom");
    let res = FallibleProcessResultWithPlatform {
        stdout_digest: Digest::of_bytes(b""),
        stderr_digest: Digest::of_bytes(b""),
        exit_code: 0,
        output_directory: Digest::of_bytes(b""),
        platform: PlatformConstraint::Linux,
    };
    assert_eq!(MultiPlatformExecuteProcess::finish(Ok(res.clone())).unwrap().0, res);
}

#[test]
fn node_keys_fs_subject_and_names() {
    let t = types();
    let df = NodeKey::DigestFile(DigestFile(File { path: "a/b.txt".to_string(), is_executable: false }));
    assert_eq!(df.fs_subject(), Some(&"a/b.txt".to_string()));
    assert_eq!(df.product_str(&t), "DigestFile");
    assert_eq!(df.describe(&t), "DigestFile(a/b.txt)");
    assert!(df.cacheable());
    let rl = NodeKey::ReadLink(ReadLink(Link("l".to_string())));
    assert_eq!(rl.fs_subject(), Some(&"l".to_string()));
    assert_eq!(rl.product_str(&t), "LinkDest");
    let sd = NodeKey::Scandir(Scandir(Dir("d".to_string())));
    assert_eq!(sd.product_str(&t), "DirectoryListing");
    let snap = NodeKey::Snapshot(Snapshot(Key { id: 4, type_id: TypeId(1) }));
    assert_eq!(snap.fs_subject(), None);
    assert_eq!(snap.user_facing_name(&t), Some("Snapshot(4)".to_string()));
    assert_eq!(df.user_facing_name(&t), None);
    let digest = Digest::of_bytes(b"x");
    assert_eq!(NodeKey::digest(&NodeResult::Digest(digest)), Some(digest));
    assert_eq!(NodeKey::digest(&NodeResult::LinkDest(LinkDest("x".to_string()))), None);
}

#[test]
fn workunit_nests_under_parent() {
    let t = types();
    let mut state = WorkunitState { parent_id: Some(3) };
    let snap = NodeKey::Snapshot(Snapshot(Key { id: 4, type_id: TypeId(1) }));
    let w = snap.start_workunit(&mut state, 10, true, &t);
    assert_eq!(w.parent_id, Some(3));
    assert_eq!(state.parent_id, Some(10));
    assert_eq!(w.name, "Snapshot(4)");
    assert!(w.metadata.display);
    assert!(!w.metadata.blocked);
    let sd = NodeKey::Scandir(Scandir(Dir("d".to_string())));
    let w2 = sd.start_workunit(&mut state, 11, true, &t);
    assert_eq!(w2.parent_id, Some(10));
    assert_eq!(w2.name, "Scandir(d)");
    assert!(!w2.metadata.display);
}

#[test]
fn visualizer_colors_by_product() {
    let t = types();
    let mut v = Visualizer::new();
    assert_eq!(v.color_scheme(), "set312");
    let a = NodeKey::Scandir(Scandir(Dir("a".to_string())));
    let b = NodeKey::ReadLink(ReadLink(Link("b".to_string())));
    let ok = Some(Ok(NodeResult::LinkDest(LinkDest("x".to_string()))));
    assert_eq!(v.color(&a, &None, &t), "white");
    assert_eq!(v.color(&a, &Some(Err(Failure::Invalidated)), &t), "12");
    let thrown = Some(Err(Failure::Throw { message: "m".to_string(), traceback: String::new() }));
    assert_eq!(v.color(&a, &thrown, &t), "4");
    assert_eq!(v.color(&a, &ok, &t), "1");
    assert_eq!(v.color(&b, &ok, &t), "2");
    assert_eq!(v.color(&a, &ok, &t), "1");
}

#[test]
fn tracer_states() {
    assert!(Tracer::is_bottom(&None));
    assert!(Tracer::is_bottom(&Some(Ok(NodeResult::LinkDest(LinkDest("x".to_string()))))));
    assert!(!Tracer::is_bottom(&Some(Err(Failure::Invalidated))));
    let thrown = Some(Err(Failure::Throw { message: "bad".to_string(), traceback: "l1\nl2".to_string() }));
    assert!(Tracer::is_bottom(&thrown));
    assert_eq!(Tracer::state_str("  ", &thrown), "Throw(bad)\n      l1\n      l2");
    assert_eq!(Tracer::state_str("", &None), "<None>");
    assert_eq!(Tracer::state_str("", &Some(Err(Failure::Invalidated))), "Invalidated");
}

#[test]
fn snapshot_values_split_files_and_dirs() {
    let d = Digest::of_bytes(b"hello");
    let s = StoreSnapshot {
        digest: d,
        path_stats: vec![
            PathStat::Dir { path: "a".to_string(), stat: Dir("a".to_string()) },
            PathStat::File { path: "a/x".to_string(), stat: File { path: "a/x".to_string(), is_executable: false } },
            PathStat::File { path: "b".to_string(), stat: File { path: "b".to_string(), is_executable: true } },
        ],
    };
    let v = Snapshot::store_snapshot(&s);
    assert_eq!(v.files, vec!["a/x".to_string(), "b".to_string()]);
    assert_eq!(v.dirs, vec!["a".to_string()]);
    assert_eq!(v.digest.fingerprint, HELLO_SHA);
    assert_eq!(v.digest.serialized_bytes_length, 5);
}

#[test]
fn path_globs_are_lifted() {
    let globs = vec!["*.rs".to_string()];
    let p = Snapshot::lift_path_globs(&globs, "", "ignore", "all_match").unwrap();
    assert_eq!(p.strict_match_behavior, StrictGlobMatching::Ignore);
    assert_eq!(p.conjunction, GlobExpansionConjunction::AllMatch);
    let p = Snapshot::lift_path_globs(&globs, "BUILD", "error", "any_match").unwrap();
    assert_eq!(p.strict_match_behavior, StrictGlobMatching::Error(Some("BUILD".to_string())));
    assert_eq!(
        Snapshot::lift_path_globs(&globs, "", "loud", "all_match").unwrap_err(),
        "Unrecognized strict glob matching behavior: loud."
    );
    assert_eq!(
        Snapshot::lift_path_globs(&globs, "", "warn", "some").unwrap_err(),
        "Unrecognized conjunction: some."
    );
    assert_eq!(message(&Snapshot::path_globs_failure("x")), "Failed to parse PathGlobs: x");
}

#[test]
fn select_and_task_identity_text() {
    let t = Types {
        coroutine: TypeId(100),
        unions: vec![],
        names: vec![(TypeId(1), "Foo".to_string()), (TypeId(2), "Bar".to_string())],
    };
    let params = Params::from_keys(vec![Key { id: 1, type_id: TypeId(2) }, Key { id: 2, type_id: TypeId(1) }]);
    let s = Select::new(params.clone(), TypeId(1), Entry::Root(Arc::new(vec![TypeId(1), TypeId(2)])));
    assert_eq!(NodeKey::Select(Box::new(s)).describe(&t), "Select(Foo, Bar, Foo)");
    let rule = Arc::new(TaskRule {
        func: Function { key: Key { id: 9, type_id: TypeId(9) }, name: "f".to_string() },
        clause: vec![],
        product: TypeId(2),
        gets: vec![],
        cacheable: false,
        display_info: DisplayInfo { name: Some("Doing f".to_string()), desc: Some("desc".to_string()) },
    });
    let task = NodeKey::Task(Box::new(Task { params, product: TypeId(2), task: rule, entry: Entry::Param(TypeId(2)) }));
    assert_eq!(task.describe(&t), "Task(f, Foo, Bar, Bar, false)");
    assert!(!task.cacheable());
    assert_eq!(task.user_facing_name(&t), Some("Doing f".to_string()));
    let mut state = WorkunitState { parent_id: None };
    let w = task.start_workunit(&mut state, 1, false, &t);
    assert_eq!(w.name, "Doing f");
    assert_eq!(w.metadata.desc, Some("desc".to_string()));
    assert!(!w.metadata.display);
    assert_eq!(w.parent_id, None);
}

#[test]
fn node_result_conversions() {
    let d = Digest::of_bytes(b"x");
    assert_eq!(NodeResult::Digest(d).try_into_digest(), Some(d));
    assert_eq!(NodeResult::Digest(d).try_into_value(), None);
    let v = Key { id: 3, type_id: TypeId(1) };
    assert_eq!(NodeResult::Value(v).try_into_value(), Some(v));
    assert_eq!(NodeResult::LinkDest(LinkDest("t".to_string())).try_into_link_dest(), Some(LinkDest("t".to_string())));
    assert!(NodeResult::Value(v).try_into_snapshot().is_none());
    assert!(NodeResult::Value(v).try_into_process_result().is_none());
    let listing = Arc::new(engine::node::DirectoryListing(vec![]));
    assert_eq!(NodeResult::DirectoryListing(listing.clone()).try_into_directory_listing(), Some(listing));
}

#[test]
fn download_request_without_path_segments() {
    let err = DownloadedFile::prepare("mailto:someone@example.com", HELLO_SHA, "5").unwrap_err();
    assert_eq!(message(&err), "Error getting the file name from the parsed URL: mailto:someone@example.com");
    let err = DownloadedFile::prepare("https://example.com/f", "xyz", "5").unwrap_err();
    assert_eq!(message(&err), "Invalid fingerprint: xyz");
    let req = DownloadedFile::prepare("https://example.com/dir/", HELLO_SHA, "5").unwrap();
    assert_eq!(req.file_name, "");
}

#[test]
fn visualizer_default_starts_empty() {
    let t = types();
    let mut v = Visualizer::default();
    let a = NodeKey::Scandir(Scandir(Dir("a".to_string())));
    let ok = Some(Ok(NodeResult::LinkDest(LinkDest("x".to_string()))));
    assert_eq!(v.color(&a, &ok, &t), "1");
}

#[test]
fn visualizer_palette_wraps_after_twelve_products() {
    let mut names = vec![];
    for i in 0..13u64 {
        names.push((TypeId(i), format!("T{}", i)));
    }
    let t = Types { coroutine: TypeId(100), unions: vec![], names };
    let mut v = Visualizer::new();
    let ok = Some(Ok(NodeResult::LinkDest(LinkDest("x".to_string()))));
    let mut colors = vec![];
    for i in 0..13u64 {
        let s = Select::new(Params::new(), TypeId(i), Entry::Param(TypeId(i)));
        colors.push(v.color(&NodeKey::Select(Box::new(s)), &ok, &t));
    }
    assert_eq!(colors[0], "1");
    assert_eq!(colors[11], "12");
    assert_eq!(colors[12], "1");
}
