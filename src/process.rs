//! Process requests: lifting them from their host fields, one per platform pair.

use vstd::prelude::*;
use crate::digest::{Digest, lift_digest};
use crate::failure::{Failure, throw, is_throw_of};
use crate::text::{
    concat, decimal_string, less_text, lemma_text_less_total, lemma_text_less_transitive,
    owned, push_str, same_text, text_less, views,
};

verus! {

/// A platform a process may run on or be built for.
#[derive(Clone, Copy, Debug, PartialEq, Eq, Hash, PartialOrd, Ord, Structural)]
pub enum PlatformConstraint {
    Darwin,
    Linux,
    Unconstrained,
}

/// The position of a platform in the order of platforms.
pub open spec fn platform_rank(p: PlatformConstraint) -> int {
    match p {
        PlatformConstraint::Darwin => 0,
        PlatformConstraint::Linux => 1,
        PlatformConstraint::Unconstrained => 2,
    }
}

/// The platform a name denotes.
pub open spec fn platform_named(s: Seq<char>) -> Option<PlatformConstraint> {
    if s == "darwin"@ {
        Some(PlatformConstraint::Darwin)
    } else if s == "linux"@ {
        Some(PlatformConstraint::Linux)
    } else if s == "none"@ {
        Some(PlatformConstraint::Unconstrained)
    } else {
        None
    }
}

impl PlatformConstraint {
    /// The platform named `s`: `darwin`, `linux` or `none`.
    pub fn parse(s: &str) -> (r: Result<PlatformConstraint, String>)
        ensures
            match platform_named(s@) {
                Some(p) => r == Ok::<PlatformConstraint, String>(p),
                None => r is Err,
            },
    {
        if same_text(s, "darwin") {
            Ok(PlatformConstraint::Darwin)
        } else if same_text(s, "linux") {
            Ok(PlatformConstraint::Linux)
        } else if same_text(s, "none") {
            Ok(PlatformConstraint::Unconstrained)
        } else {
            let m = concat("Unknown platform ", s);
            Err(concat(m.as_str(), " encountered in parsing"))
        }
    }

    fn rank(&self) -> (r: u8)
        ensures
            r as int == platform_rank(*self),
    {
        match self {
            PlatformConstraint::Darwin => 0,
            PlatformConstraint::Linux => 1,
            PlatformConstraint::Unconstrained => 2,
        }
    }
}

/// A process to run.
#[derive(Clone, Debug, PartialEq, Eq, Hash)]
pub struct Process {
    pub argv: Vec<String>,
    /// Environment variables, ordered by name, each name once.
    pub env: Vec<(String, String)>,
    pub working_directory: Option<String>,
    pub input_files: Digest,
    pub output_files: Vec<String>,
    pub output_directories: Vec<String>,
    pub timeout_millis: Option<u64>,
    pub description: String,
    pub unsafe_local_only_files_digest: Digest,
    pub jdk_home: Option<String>,
    pub target_platform: PlatformConstraint,
    pub is_nailgunnable: bool,
}

/// The fields of a process request as the host hands them over.
#[derive(Clone, Debug, PartialEq, Eq)]
pub struct ProcessFields {
    pub argv: Vec<String>,
    /// Alternating names and values.
    pub env: Vec<String>,
    /// Empty for none; carried as given, without a check that it is relative.
    pub working_directory: String,
    pub input_digest_fingerprint: String,
    pub input_digest_length: String,
    pub output_files: Vec<String>,
    pub output_directories: Vec<String>,
    /// The timeout in whole milliseconds; `None` for a negative timeout.
    pub timeout_millis: Option<u64>,
    pub description: String,
    /// Empty for none.
    pub jdk_home: String,
    pub is_nailgunnable: bool,
    pub unsafe_local_only_files_fingerprint: String,
    pub unsafe_local_only_files_length: String,
}

/// The entries are ordered strictly by name.
pub open spec fn env_sorted(e: Seq<(String, String)>) -> bool {
    forall|i: int, j: int| 0 <= i < j < e.len() ==> text_less(e[i].0@, e[j].0@)
}

/// `e` maps `k` to `v`.
pub open spec fn env_has(e: Seq<(String, String)>, k: Seq<char>, v: Seq<char>) -> bool {
    exists|i: int| 0 <= i < e.len() && (#[trigger] e[i]).0@ == k && e[i].1@ == v
}

/// The value that the alternating names and values `parts` give `k` last.
pub open spec fn last_value(parts: Seq<Seq<char>>, k: Seq<char>) -> Option<Seq<char>>
    decreases parts.len(),
{
    if parts.len() < 2 {
        None
    } else if parts[parts.len() - 2] == k {
        Some(parts[parts.len() - 1])
    } else {
        last_value(parts.subrange(0, parts.len() - 2), k)
    }
}

/// Sets `k` to `v` in an environment ordered by name.
fn env_put(e: &mut Vec<(String, String)>, k: String, v: String)
    requires
        env_sorted(old(e)@),
    ensures
        env_sorted(final(e)@),
        forall|k2: Seq<char>, v2: Seq<char>| env_has(final(e)@, k2, v2) <==> (
            if k2 == k@ { v2 == v@ } else { env_has(old(e)@, k2, v2) }),
{
    let ghost s = e@;
    let mut i: usize = 0;
    while i < e.len() && less_text(e[i].0.as_str(), k.as_str())
        invariant
            e@ == s,
            i <= s.len(),
            forall|j: int| 0 <= j < i ==> text_less(#[trigger] s[j].0@, k@),
        decreases s.len() - i,
    {
        i = i + 1;
    }
    if i < e.len() && same_text(e[i].0.as_str(), k.as_str()) {
        e.set(i, (k, v));
        proof {
            let t = e@;
            assert(t =~= s.update(i as int, (k, v)));
            assert forall|a: int, b: int| 0 <= a < b < t.len() implies text_less(t[a].0@, t[b].0@) by {
                assert(s[i as int].0@ == k@);
            }
            assert forall|k2: Seq<char>, v2: Seq<char>| env_has(t, k2, v2) <==> (
                if k2 == k@ { v2 == v@ } else { env_has(s, k2, v2) }) by {
                if env_has(t, k2, v2) {
                    let p = choose|p: int| 0 <= p < t.len() && (#[trigger] t[p]).0@ == k2 && t[p].1@ == v2;
                    if p != i {
                        assert(s[p] == t[p]);
                        if p < i {
                            assert(text_less(s[p].0@, s[i as int].0@));
                        } else {
                            assert(text_less(s[i as int].0@, s[p].0@));
                        }
                        lemma_text_less_total(k2, k@);
                    }
                }
                if k2 == k@ && v2 == v@ {
                    assert(t[i as int].0@ == k2);
                }
                if k2 != k@ && env_has(s, k2, v2) {
                    let p = choose|p: int| 0 <= p < s.len() && (#[trigger] s[p]).0@ == k2 && s[p].1@ == v2;
                    assert(p != i);
                    assert(t[p] == s[p]);
                }
            }
        }
    } else {
        e.insert(i, (k, v));
        proof {
            let t = e@;
            assert(t =~= s.insert(i as int, (k, v)));
            if i < s.len() {
                lemma_text_less_total(s[i as int].0@, k@);
            }
            assert forall|a: int, b: int| 0 <= a < b < t.len() implies text_less(t[a].0@, t[b].0@) by {
                if a < i && b == i {
                } else if a == i && b > i {
                    if b > i + 1 {
                        lemma_text_less_transitive(k@, s[i as int].0@, s[b - 1].0@);
                    }
                } else if a < i && b > i {
                    assert(t[a] == s[a] && t[b] == s[b - 1]);
                } else if a > i {
                    assert(t[a] == s[a - 1] && t[b] == s[b - 1]);
                }
            }
            assert forall|k2: Seq<char>, v2: Seq<char>| env_has(t, k2, v2) <==> (
                if k2 == k@ { v2 == v@ } else { env_has(s, k2, v2) }) by {
                if env_has(t, k2, v2) {
                    let p = choose|p: int| 0 <= p < t.len() && (#[trigger] t[p]).0@ == k2 && t[p].1@ == v2;
                    if p < i {
                        assert(t[p] == s[p]);
                        lemma_text_less_total(k2, k@);
                    } else if p > i {
                        assert(t[p] == s[p - 1]);
                        if p - 1 > i {
                            lemma_text_less_transitive(k@, s[i as int].0@, s[p - 1].0@);
                        }
                        lemma_text_less_total(k@, k2);
                    }
                }
                if k2 == k@ && v2 == v@ {
                    assert(t[i as int].0@ == k2);
                }
                if k2 != k@ && env_has(s, k2, v2) {
                    let p = choose|p: int| 0 <= p < s.len() && (#[trigger] s[p]).0@ == k2 && s[p].1@ == v2;
                    if p < i {
                        assert(t[p] == s[p]);
                    } else {
                        assert(t[p + 1] == s[p]);
                    }
                }
            }
        }
    }
}

/// The environment that alternating names and values give, ordered by name; a name given
/// twice keeps its last value.
pub fn lift_env(parts: &Vec<String>) -> (r: Result<Vec<(String, String)>, String>)
    ensures
        r is Ok <==> parts@.len() % 2 == 0,
        r matches Err(m) ==> m@ == "Error parsing env: odd number of parts"@,
        r matches Ok(e) ==> env_sorted(e@) && forall|k: Seq<char>, v: Seq<char>|
            env_has(e@, k, v) <==> last_value(views(parts@), k) == Some(v),
{
    if parts.len() % 2 != 0 {
        return Err(owned("Error parsing env: odd number of parts"));
    }
    let ghost all = views(parts@);
    let mut e: Vec<(String, String)> = Vec::new();
    let mut i: usize = 0;
    while i < parts.len()
        invariant
            parts@.len() % 2 == 0,
            i % 2 == 0,
            i <= parts@.len(),
            all == views(parts@),
            env_sorted(e@),
            forall|k: Seq<char>, v: Seq<char>| env_has(e@, k, v) <==> last_value(all.subrange(0, i as int), k) == Some(v),
        decreases parts@.len() - i,
    {
        let ghost before = e@;
        let k = parts[i].clone();
        let v = parts[i + 1].clone();
        env_put(&mut e, k, v);
        proof {
            let p = all.subrange(0, i + 2);
            assert(p.subrange(0, p.len() - 2) =~= all.subrange(0, i as int));
            assert(p[p.len() - 2] == k@);
            assert(p[p.len() - 1] == v@);
        }
        i = i + 2;
    }
    proof {
        assert(all.subrange(0, i as int) =~= all);
    }
    Ok(e)
}

/// A non-empty text as `Some`, the empty one as `None`.
pub open spec fn non_empty(s: Seq<char>) -> Option<Seq<char>> {
    if s.len() == 0 { None } else { Some(s) }
}

/// The fields of `f` hold two valid digests and an even number of environment parts.
pub open spec fn fields_valid(f: ProcessFields) -> bool {
    &&& f.env@.len() % 2 == 0
    &&& crate::download::digest_fields_valid(f.input_digest_fingerprint@, f.input_digest_length@)
    &&& crate::download::digest_fields_valid(f.unsafe_local_only_files_fingerprint@, f.unsafe_local_only_files_length@)
}

/// `p` is the process that `f` describes, for `target`.
pub open spec fn lifted_from(p: Process, f: ProcessFields, target: PlatformConstraint) -> bool {
    &&& views(p.argv@) == views(f.argv@)
    &&& env_sorted(p.env@)
    &&& forall|k: Seq<char>, v: Seq<char>| env_has(p.env@, k, v) <==> last_value(views(f.env@), k) == Some(v)
    &&& crate::args::opt_view(p.working_directory) == non_empty(f.working_directory@)
    &&& digest_denoted(p.input_files, f.input_digest_fingerprint@, f.input_digest_length@)
    &&& views(p.output_files@) == views(f.output_files@)
    &&& views(p.output_directories@) == views(f.output_directories@)
    &&& p.timeout_millis == f.timeout_millis
    &&& p.description@ == f.description@
    &&& digest_denoted(p.unsafe_local_only_files_digest, f.unsafe_local_only_files_fingerprint@,
        f.unsafe_local_only_files_length@)
    &&& crate::args::opt_view(p.jdk_home) == non_empty(f.jdk_home@)
    &&& p.target_platform == target
    &&& p.is_nailgunnable == f.is_nailgunnable
}

/// `d` is the digest that the two text fields denote.
pub open spec fn digest_denoted(d: Digest, fingerprint: Seq<char>, length: Seq<char>) -> bool {
    &&& d.1 as nat == crate::digest::unsigned_value(length)->Some_0
    &&& forall|i: int| 0 <= i < 32 ==> d.0.0@[i] as nat == crate::digest::hex_byte(fingerprint, i)
}

fn copy_optional(s: &String) -> (r: Option<String>)
    ensures
        crate::args::opt_view(r) == non_empty(s@),
{
    if s.unicode_len() == 0 {
        None
    } else {
        Some(s.clone())
    }
}

/// The process that `fields` describe, for the platform `target_platform`.
pub fn lift_execute_process(fields: &ProcessFields, target_platform: PlatformConstraint) -> (r: Result<Process, String>)
    ensures
        r is Ok <==> fields_valid(*fields),
        r matches Ok(p) ==> lifted_from(p, *fields, target_platform),
{
    let env = lift_env(&fields.env)?;
    let working_directory = copy_optional(&fields.working_directory);
    let input_files = match lift_digest(fields.input_digest_fingerprint.as_str(), fields.input_digest_length.as_str()) {
        Ok(d) => d,
        Err(e) => {
            return Err(concat("Error parsing digest ", e.as_str()));
        },
    };
    let unsafe_local_only_files_digest = match lift_digest(
        fields.unsafe_local_only_files_fingerprint.as_str(),
        fields.unsafe_local_only_files_length.as_str(),
    ) {
        Ok(d) => d,
        Err(e) => {
            return Err(concat("Error parsing digest ", e.as_str()));
        },
    };
    let argv = crate::args::copy_strings(&fields.argv);
    let output_files = crate::args::copy_strings(&fields.output_files);
    let output_directories = crate::args::copy_strings(&fields.output_directories);
    Ok(Process {
        argv,
        env,
        working_directory,
        input_files,
        output_files,
        output_directories,
        timeout_millis: fields.timeout_millis,
        description: fields.description.clone(),
        unsafe_local_only_files_digest,
        jdk_home: copy_optional(&fields.jdk_home),
        target_platform,
        is_nailgunnable: fields.is_nailgunnable,
    })
}

/// A host/target platform pair.
pub type PlatformPair = (PlatformConstraint, PlatformConstraint);

/// The position of a platform pair in the order of pairs.
pub open spec fn pair_rank(k: PlatformPair) -> int {
    platform_rank(k.0) * 3 + platform_rank(k.1)
}

/// The requests are ordered strictly by platform pair.
pub open spec fn requests_sorted(m: Seq<(PlatformPair, Process)>) -> bool {
    forall|i: int, j: int| 0 <= i < j < m.len() ==> pair_rank(m[i].0) < pair_rank(m[j].0)
}

/// `m` holds `q` for the pair `k`.
pub open spec fn has_request(m: Seq<(PlatformPair, Process)>, k: PlatformPair, q: Process) -> bool {
    exists|i: int| 0 <= i < m.len() && (#[trigger] m[i]).0 == k && m[i].1 == q
}

/// `m` holds a request for the pair `k`.
pub open spec fn has_pair(m: Seq<(PlatformPair, Process)>, k: PlatformPair) -> bool {
    exists|i: int| 0 <= i < m.len() && (#[trigger] m[i]).0 == k
}

proof fn lemma_pair_rank_injective(a: PlatformPair, b: PlatformPair)
    ensures
        pair_rank(a) == pair_rank(b) ==> a == b,
{
}

/// Sets the request for `k` to `q` in requests ordered by platform pair.
fn request_put(m: &mut Vec<(PlatformPair, Process)>, k: PlatformPair, q: Process)
    requires
        requests_sorted(old(m)@),
    ensures
        requests_sorted(final(m)@),
        forall|k2: PlatformPair, q2: Process| has_request(final(m)@, k2, q2) <==> (
            if k2 == k { q2 == q } else { has_request(old(m)@, k2, q2) }),
        forall|k2: PlatformPair| has_pair(final(m)@, k2) <==> (k2 == k || has_pair(old(m)@, k2)),
{
    let ghost s = m@;
    let rk = k.0.rank() as u64 * 3 + k.1.rank() as u64;
    let mut i: usize = 0;
    while i < m.len() && (m[i].0.0.rank() as u64 * 3 + m[i].0.1.rank() as u64) < rk
        invariant
            m@ == s,
            i <= s.len(),
            rk == pair_rank(k),
            forall|j: int| 0 <= j < i ==> pair_rank(#[trigger] s[j].0) < pair_rank(k),
        decreases s.len() - i,
    {
        i = i + 1;
    }
    if i < m.len() && (m[i].0.0.rank() as u64 * 3 + m[i].0.1.rank() as u64) == rk {
        proof {
            lemma_pair_rank_injective(s[i as int].0, k);
        }
        m.set(i, (k, q));
        proof {
            let t = m@;
            assert(t =~= s.update(i as int, (k, q)));
            assert forall|k2: PlatformPair, q2: Process| has_request(t, k2, q2) <==> (
                if k2 == k { q2 == q } else { has_request(s, k2, q2) }) by {
                if has_request(t, k2, q2) {
                    let p = choose|p: int| 0 <= p < t.len() && (#[trigger] t[p]).0 == k2 && t[p].1 == q2;
                    if p != i {
                        assert(s[p] == t[p]);
                    }
                }
                if k2 == k && q2 == q {
                    assert(t[i as int].0 == k2);
                }
                if k2 != k && has_request(s, k2, q2) {
                    let p = choose|p: int| 0 <= p < s.len() && (#[trigger] s[p]).0 == k2 && s[p].1 == q2;
                    assert(t[p] == s[p]);
                }
            }
            assert forall|k2: PlatformPair| has_pair(t, k2) <==> (k2 == k || has_pair(s, k2)) by {
                if has_pair(t, k2) {
                    let p = choose|p: int| 0 <= p < t.len() && (#[trigger] t[p]).0 == k2;
                    if p != i {
                        assert(s[p] == t[p]);
                    }
                }
                if k2 == k {
                    assert(t[i as int].0 == k2);
                }
                if has_pair(s, k2) {
                    let p = choose|p: int| 0 <= p < s.len() && (#[trigger] s[p]).0 == k2;
                    if p != i {
                        assert(t[p] == s[p]);
                    } else {
                        assert(t[p].0 == k);
                    }
                }
            }
        }
    } else {
        m.insert(i, (k, q));
        proof {
            let t = m@;
            assert(t =~= s.insert(i as int, (k, q)));
            assert forall|a: int, b: int| 0 <= a < b < t.len() implies pair_rank(t[a].0) < pair_rank(t[b].0) by {
                if a < i && b > i {
                    assert(t[a] == s[a] && t[b] == s[b - 1]);
                } else if a > i {
                    assert(t[a] == s[a - 1] && t[b] == s[b - 1]);
                } else if a == i && b > i {
                    assert(t[b] == s[b - 1]);
                    assert(pair_rank(s[i as int].0) >= pair_rank(k));
                    assert(pair_rank(s[i as int].0) != pair_rank(k));
                }
            }
            assert forall|k2: PlatformPair, q2: Process| has_request(t, k2, q2) <==> (
                if k2 == k { q2 == q } else { has_request(s, k2, q2) }) by {
                if has_request(t, k2, q2) {
                    let p = choose|p: int| 0 <= p < t.len() && (#[trigger] t[p]).0 == k2 && t[p].1 == q2;
                    if p < i {
                        assert(t[p] == s[p]);
                    } else if p > i {
                        assert(t[p] == s[p - 1]);
                        assert(pair_rank(s[i as int].0) != pair_rank(k));
                        lemma_pair_rank_injective(k2, k);
                    }
                }
                if k2 == k && q2 == q {
                    assert(t[i as int].0 == k2);
                }
                if k2 != k && has_request(s, k2, q2) {
                    let p = choose|p: int| 0 <= p < s.len() && (#[trigger] s[p]).0 == k2 && s[p].1 == q2;
                    if p < i {
                        assert(t[p] == s[p]);
                    } else {
                        assert(t[p + 1] == s[p]);
                    }
                }
            }
            assert forall|k2: PlatformPair| has_pair(t, k2) <==> (k2 == k || has_pair(s, k2)) by {
                if has_pair(t, k2) {
                    let p = choose|p: int| 0 <= p < t.len() && (#[trigger] t[p]).0 == k2;
                    if p < i {
                        assert(t[p] == s[p]);
                    } else if p > i {
                        assert(t[p] == s[p - 1]);
                    }
                }
                if k2 == k {
                    assert(t[i as int].0 == k2);
                }
                if has_pair(s, k2) {
                    let p = choose|p: int| 0 <= p < s.len() && (#[trigger] s[p]).0 == k2;
                    if p < i {
                        assert(t[p] == s[p]);
                    } else {
                        assert(t[p + 1] == s[p]);
                    }
                }
            }
        }
    }
}

/// Processes to run, one per host/target platform pair, ordered by pair.
#[derive(Clone, Debug, PartialEq, Eq, Hash)]
pub struct MultiPlatformProcess(pub Vec<(PlatformPair, Process)>);

/// A node that runs one of a set of per-platform processes.
#[derive(Clone, Debug, PartialEq, Eq, Hash)]
pub struct MultiPlatformExecuteProcess(pub MultiPlatformProcess);

/// The result of running a process, with the platform it ran for.
#[derive(Clone, Debug, PartialEq, Eq, Hash)]
pub struct FallibleProcessResultWithPlatform {
    pub stdout_digest: Digest,
    pub stderr_digest: Digest,
    pub exit_code: i32,
    pub output_directory: Digest,
    pub platform: PlatformConstraint,
}

/// Every part of `parts` names a platform.
pub open spec fn all_platforms(parts: Seq<Seq<char>>) -> bool {
    forall|i: int| 0 <= i < parts.len() ==> (#[trigger] platform_named(parts[i])) is Some
}

/// The platform pair given by parts `2 i` and `2 i + 1`.
pub open spec fn pair_at(parts: Seq<Seq<char>>, i: int) -> PlatformPair {
    (platform_named(parts[2 * i])->Some_0, platform_named(parts[2 * i + 1])->Some_0)
}

/// Pair `i` is the last of the first `n` pairs with its value.
pub open spec fn last_pair_index(parts: Seq<Seq<char>>, i: int, n: int) -> bool {
    0 <= i < n && forall|j: int| i < j < n ==> pair_at(parts, j) != pair_at(parts, i)
}

/// `m` holds, for each distinct pair among the first `n`, the process that the fields of the
/// last such pair describe.
pub open spec fn requests_for(m: Seq<(PlatformPair, Process)>, parts: Seq<Seq<char>>, procs: Seq<ProcessFields>, n: int) -> bool {
    &&& requests_sorted(m)
    &&& forall|k: PlatformPair| has_pair(m, k) <==> exists|i: int| 0 <= i < n && pair_at(parts, i) == k
    &&& forall|k: PlatformPair, q: Process| has_request(m, k, q) ==> exists|i: int|
        last_pair_index(parts, i, n) && pair_at(parts, i) == k && #[trigger] lifted_from(q, procs[i], k.1)
}

/// What the platform-constraint parts and process fields must satisfy to be lifted.
pub open spec fn lift_valid(parts: Seq<Seq<char>>, procs: Seq<ProcessFields>) -> bool {
    &&& parts.len() % 2 == 0
    &&& all_platforms(parts)
    &&& parts.len() / 2 == procs.len()
    &&& forall|i: int| 0 <= i < procs.len() ==> fields_valid(#[trigger] procs[i])
}

impl MultiPlatformExecuteProcess {
    /// The per-platform requests that `platform_constraints` (alternating host and target
    /// platform names) and the matching `processes` describe.
    pub fn lift(platform_constraints: &Vec<String>, processes: &Vec<ProcessFields>) -> (r: Result<MultiPlatformExecuteProcess, String>)
        ensures
            r is Ok <==> lift_valid(views(platform_constraints@), processes@),
            platform_constraints@.len() % 2 != 0 ==> (r matches Err(m)
                && m@ == "Error parsing platform_constraints: odd number of parts"@),
            platform_constraints@.len() % 2 == 0 && all_platforms(views(platform_constraints@))
                && platform_constraints@.len() / 2 != processes@.len() ==> (r matches Err(m)
                && m@ == "Sizes of constraint keys and processes do not match: "@
                    + crate::text::decimal((platform_constraints@.len() / 2) as nat) + " vs. "@
                    + crate::text::decimal(processes@.len() as nat)),
            r matches Ok(m) ==> requests_for(m.0.0@, views(platform_constraints@), processes@, processes@.len() as int),
    {
        let ghost parts = views(platform_constraints@);
        let n = platform_constraints.len();
        if n % 2 != 0 {
            return Err(owned("Error parsing platform_constraints: odd number of parts"));
        }
        let mut pairs: Vec<PlatformPair> = Vec::new();
        let mut i: usize = 0;
        while i < n
            invariant
                n == platform_constraints@.len(),
                parts == views(platform_constraints@),
                n % 2 == 0,
                i % 2 == 0,
                i <= n,
                pairs@.len() == i / 2,
                forall|j: int| 0 <= j < i ==> (#[trigger] platform_named(parts[j])) is Some,
                forall|j: int| 0 <= j < i / 2 ==> #[trigger] pairs@[j] == pair_at(parts, j),
            decreases n - i,
        {
            proof {
                assert(parts[i as int] == platform_constraints@[i as int]@);
                assert(parts[i + 1] == platform_constraints@[i + 1]@);
            }
            let host = match PlatformConstraint::parse(platform_constraints[i].as_str()) {
                Ok(p) => p,
                Err(e) => {
                    proof {
                        assert(platform_named(parts[i as int]) is None);
                    }
                    return Err(e);
                },
            };
            let target = match PlatformConstraint::parse(platform_constraints[i + 1].as_str()) {
                Ok(p) => p,
                Err(e) => {
                    proof {
                        assert(platform_named(parts[i + 1]) is None);
                    }
                    return Err(e);
                },
            };
            pairs.push((host, target));
            proof {
                assert(pairs@[i as int / 2] == pair_at(parts, i as int / 2));
            }
            i = i + 2;
        }
        if n / 2 != processes.len() {
            let mut m = owned("Sizes of constraint keys and processes do not match: ");
            let a = decimal_string((n / 2) as u64);
            push_str(&mut m, a.as_str());
            push_str(&mut m, " vs. ");
            let b = decimal_string(processes.len() as u64);
            push_str(&mut m, b.as_str());
            return Err(m);
        }
        let mut requests: Vec<(PlatformPair, Process)> = Vec::new();
        let mut j: usize = 0;
        while j < processes.len()
            invariant
                n == platform_constraints@.len(),
                parts == views(platform_constraints@),
                n / 2 == processes@.len(),
                pairs@.len() == processes@.len(),
                n % 2 == 0,
                all_platforms(parts),
                j <= processes@.len(),
                forall|x: int| 0 <= x < n / 2 ==> #[trigger] pairs@[x] == pair_at(parts, x),
                forall|x: int| 0 <= x < j ==> fields_valid(#[trigger] processes@[x]),
                requests_for(requests@, parts, processes@, j as int),
            decreases processes@.len() - j,
        {
            let key = pairs[j];
            let proc = lift_execute_process(&processes[j], key.1)?;
            let ghost before = requests@;
            request_put(&mut requests, key, proc);
            proof {
                let t = requests@;
                assert(key == pair_at(parts, j as int));
                assert forall|k: PlatformPair| has_pair(t, k) <==> exists|i: int| 0 <= i < j + 1 && pair_at(parts, i) == k by {
                    if has_pair(t, k) && k != key {
                        assert(has_pair(before, k));
                    }
                    if exists|i: int| 0 <= i < j + 1 && pair_at(parts, i) == k {
                        let i = choose|i: int| 0 <= i < j + 1 && pair_at(parts, i) == k;
                        if i < j {
                            assert(has_pair(before, k));
                        }
                    }
                }
                assert forall|k: PlatformPair, q: Process| has_request(t, k, q) implies exists|i: int|
                    last_pair_index(parts, i, j + 1) && pair_at(parts, i) == k && #[trigger] lifted_from(q, processes@[i], k.1) by {
                    if k == key {
                        assert(q == proc);
                        assert(last_pair_index(parts, j as int, j + 1));
                        assert(lifted_from(q, processes@[j as int], k.1));
                    } else {
                        assert(has_request(before, k, q));
                        let i = choose|i: int| last_pair_index(parts, i, j as int) && pair_at(parts, i) == k
                            && #[trigger] lifted_from(q, processes@[i], k.1);
                        assert(last_pair_index(parts, i, j + 1));
                    }
                }
            }
            j = j + 1;
        }
        Ok(MultiPlatformExecuteProcess(MultiPlatformProcess(requests)))
    }

    /// The name shown to users: the description of the first request, if any.
    pub fn user_facing_name(&self) -> (r: Option<String>)
        ensures
            self.0.0@.len() == 0 ==> r is None,
            self.0.0@.len() > 0 ==> (r matches Some(s) && s@ == self.0.0@[0].1.description@),
    {
        if self.0.0.len() == 0 {
            None
        } else {
            Some(self.0.0[0].1.description.clone())
        }
    }

    /// Fails where the command runner found no request it can run.
    pub fn check_compatible(found_compatible: bool) -> (r: Result<(), Failure>)
        ensures
            found_compatible ==> r is Ok,
            !found_compatible ==> (r matches Err(f) && is_throw_of(f, "No compatible platform found for request"@)),
    {
        if found_compatible {
            Ok(())
        } else {
            Err(throw(owned("No compatible platform found for request")))
        }
    }

    /// The node's outcome once the command runner answered.
    pub fn finish(outcome: Result<FallibleProcessResultWithPlatform, String>) -> (r: Result<crate::node::ProcessResult, Failure>)
        ensures
            match outcome {
                Ok(res) => r matches Ok(p) && p.0 == res,
                Err(e) => r matches Err(f) && is_throw_of(f, "Failed to execute process: "@ + e@),
            },
    {
        match outcome {
            Ok(res) => Ok(crate::node::ProcessResult(res)),
            Err(e) => Err(throw(concat("Failed to execute process: ", e.as_str()))),
        }
    }
}

} // verus!
