//! Path-glob requests and the host-facing shapes of digests and snapshots.

use vstd::prelude::*;
use crate::args::copy_strings;
use crate::digest::{Digest, hex_of};
use crate::failure::{Failure, throw, is_throw_of};
use crate::node::{PathStat, Snapshot, StoreSnapshot};
use crate::text::{concat, owned, same_text, views};

verus! {

/// What to do when a glob matches nothing; warnings and errors name where the globs came from.
#[derive(Clone, Debug, PartialEq, Eq, Hash)]
pub enum StrictGlobMatching {
    Error(Option<String>),
    Warn(Option<String>),
    Ignore,
}

/// Whether all globs or any glob must match.
#[derive(Clone, Copy, Debug, PartialEq, Eq, Hash, Structural)]
pub enum GlobExpansionConjunction {
    AllMatch,
    AnyMatch,
}

/// A set of globs with their matching policy.
#[derive(Clone, Debug, PartialEq, Eq, Hash)]
pub struct PathGlobs {
    pub globs: Vec<String>,
    pub strict_match_behavior: StrictGlobMatching,
    pub conjunction: GlobExpansionConjunction,
}

/// A directory digest as the host receives it.
#[derive(Clone, Debug, PartialEq, Eq)]
pub struct DirectoryDigestValue {
    pub fingerprint: String,
    pub serialized_bytes_length: i64,
}

/// A snapshot as the host receives it: its digest, then its file and directory paths.
#[derive(Clone, Debug, PartialEq, Eq)]
pub struct SnapshotValue {
    pub digest: DirectoryDigestValue,
    pub files: Vec<String>,
    pub dirs: Vec<String>,
}

/// The policy that a behavior name denotes.
pub open spec fn behavior_named(s: Seq<char>) -> bool {
    s == "ignore"@ || s == "warn"@ || s == "error"@
}

/// The conjunction that a name denotes.
pub open spec fn conjunction_named(s: Seq<char>) -> Option<GlobExpansionConjunction> {
    if s == "all_match"@ {
        Some(GlobExpansionConjunction::AllMatch)
    } else if s == "any_match"@ {
        Some(GlobExpansionConjunction::AnyMatch)
    } else {
        None
    }
}

/// The paths of the file entries of `stats`, in order.
pub open spec fn file_paths(stats: Seq<PathStat>) -> Seq<Seq<char>>
    decreases stats.len(),
{
    if stats.len() == 0 {
        Seq::empty()
    } else {
        match stats.last() {
            PathStat::File { path, .. } => file_paths(stats.drop_last()).push(path@),
            PathStat::Dir { .. } => file_paths(stats.drop_last()),
        }
    }
}

/// The paths of the directory entries of `stats`, in order.
pub open spec fn dir_paths(stats: Seq<PathStat>) -> Seq<Seq<char>>
    decreases stats.len(),
{
    if stats.len() == 0 {
        Seq::empty()
    } else {
        match stats.last() {
            PathStat::File { .. } => dir_paths(stats.drop_last()),
            PathStat::Dir { path, .. } => dir_paths(stats.drop_last()).push(path@),
        }
    }
}

impl StrictGlobMatching {
    /// The policy named `behavior`: `ignore`, `warn` or `error`.
    pub fn create(behavior: &str, description_of_origin: Option<String>) -> (r: Result<StrictGlobMatching, String>)
        ensures
            behavior@ == "ignore"@ ==> r == Ok::<StrictGlobMatching, String>(StrictGlobMatching::Ignore),
            behavior@ == "warn"@ ==> r == Ok::<StrictGlobMatching, String>(StrictGlobMatching::Warn(description_of_origin)),
            behavior@ == "error"@ ==> r == Ok::<StrictGlobMatching, String>(StrictGlobMatching::Error(description_of_origin)),
            !behavior_named(behavior@) ==> (r matches Err(m)
                && m@ == "Unrecognized strict glob matching behavior: "@ + behavior@ + "."@),
    {
        proof {
            reveal_strlit("ignore");
            reveal_strlit("warn");
            reveal_strlit("error");
            assert("ignore"@.len() == 6 && "warn"@.len() == 4 && "error"@.len() == 5);
        }
        if same_text(behavior, "ignore") {
            Ok(StrictGlobMatching::Ignore)
        } else if same_text(behavior, "warn") {
            Ok(StrictGlobMatching::Warn(description_of_origin))
        } else if same_text(behavior, "error") {
            Ok(StrictGlobMatching::Error(description_of_origin))
        } else {
            let m = concat("Unrecognized strict glob matching behavior: ", behavior);
            Err(concat(m.as_str(), "."))
        }
    }
}

impl GlobExpansionConjunction {
    /// The conjunction named `spec`: `all_match` or `any_match`.
    pub fn create(spec: &str) -> (r: Result<GlobExpansionConjunction, String>)
        ensures
            match conjunction_named(spec@) {
                Some(c) => r == Ok::<GlobExpansionConjunction, String>(c),
                None => r matches Err(m) && m@ == "Unrecognized conjunction: "@ + spec@ + "."@,
            },
    {
        if same_text(spec, "all_match") {
            Ok(GlobExpansionConjunction::AllMatch)
        } else if same_text(spec, "any_match") {
            Ok(GlobExpansionConjunction::AnyMatch)
        } else {
            let m = concat("Unrecognized conjunction: ", spec);
            Err(concat(m.as_str(), "."))
        }
    }
}

impl Snapshot {
    /// The path globs that a host value's fields describe; an empty origin means none.
    /// The glob patterns are carried as given: their syntax is checked where they are
    /// expanded, not here.
    pub fn lift_path_globs(
        globs: &Vec<String>,
        description_of_origin: &str,
        glob_match_error_behavior: &str,
        conjunction: &str,
    ) -> (r: Result<PathGlobs, String>)
        ensures
            r is Ok <==> (behavior_named(glob_match_error_behavior@) && conjunction_named(conjunction@) is Some),
            r matches Ok(p) ==> views(p.globs@) == views(globs@)
                && Some(p.conjunction) == conjunction_named(conjunction@)
                && (glob_match_error_behavior@ == "ignore"@ <==> p.strict_match_behavior is Ignore)
                && (glob_match_error_behavior@ == "warn"@ <==> p.strict_match_behavior is Warn)
                && (glob_match_error_behavior@ == "error"@ <==> p.strict_match_behavior is Error),
    {
        proof {
            reveal_strlit("ignore");
            reveal_strlit("warn");
            reveal_strlit("error");
            assert("ignore"@.len() == 6 && "warn"@.len() == 4 && "error"@.len() == 5);
        }
        let origin = if description_of_origin.unicode_len() == 0 {
            None
        } else {
            Some(owned(description_of_origin))
        };
        let strict = StrictGlobMatching::create(glob_match_error_behavior, origin)?;
        let conj = GlobExpansionConjunction::create(conjunction)?;
        Ok(PathGlobs { globs: copy_strings(globs), strict_match_behavior: strict, conjunction: conj })
    }

    /// The failure for globs that could not be lifted.
    pub fn path_globs_failure(e: &str) -> (r: Failure)
        ensures
            is_throw_of(r, "Failed to parse PathGlobs: "@ + e@),
    {
        throw(concat("Failed to parse PathGlobs: ", e))
    }

    /// The host form of a directory digest.
    pub fn store_directory(item: &Digest) -> (r: DirectoryDigestValue)
        ensures
            r.fingerprint@ == hex_of(item.0.0@),
            r.serialized_bytes_length == item.1 as i64,
    {
        DirectoryDigestValue { fingerprint: item.0.to_hex(), serialized_bytes_length: item.1 as i64 }
    }

    /// The host form of a snapshot: its digest, then its file paths and directory paths in order.
    pub fn store_snapshot(item: &StoreSnapshot) -> (r: SnapshotValue)
        ensures
            r.digest.fingerprint@ == hex_of(item.digest.0.0@),
            r.digest.serialized_bytes_length == item.digest.1 as i64,
            views(r.files@) == file_paths(item.path_stats@),
            views(r.dirs@) == dir_paths(item.path_stats@),
    {
        let mut files: Vec<String> = Vec::new();
        let mut dirs: Vec<String> = Vec::new();
        let mut i: usize = 0;
        while i < item.path_stats.len()
            invariant
                i <= item.path_stats@.len(),
                views(files@) == file_paths(item.path_stats@.subrange(0, i as int)),
                views(dirs@) == dir_paths(item.path_stats@.subrange(0, i as int)),
            decreases item.path_stats@.len() - i,
        {
            let ghost f0 = files@;
            let ghost d0 = dirs@;
            proof {
                assert(item.path_stats@.subrange(0, i + 1).drop_last() =~= item.path_stats@.subrange(0, i as int));
            }
            match &item.path_stats[i] {
                PathStat::File { path, .. } => {
                    let p = Snapshot::store_path(path);
                    files.push(p);
                    proof {
                        crate::text::lemma_views_push(f0, p);
                    }
                },
                PathStat::Dir { path, .. } => {
                    let p = Snapshot::store_path(path);
                    dirs.push(p);
                    proof {
                        crate::text::lemma_views_push(d0, p);
                    }
                },
            }
            i = i + 1;
        }
        proof {
            assert(item.path_stats@.subrange(0, i as int) =~= item.path_stats@);
        }
        SnapshotValue { digest: Snapshot::store_directory(&item.digest), files, dirs }
    }

    /// The host form of a path.
    fn store_path(item: &String) -> (r: String)
        ensures
            r@ == item@,
    {
        item.clone()
    }
}

} // verus!
