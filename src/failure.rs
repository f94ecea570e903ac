//! The two ways a node can fail.

use vstd::prelude::*;
use crate::text::{join, views, join_strings, owned, concat};

verus! {

/// Why a node did not produce a result.
#[derive(Clone, Debug, PartialEq, Eq, Hash)]
pub enum Failure {
    /// A user-visible error, with its message and a textual traceback.
    Throw { message: String, traceback: String },
    /// A dependency was invalidated while this node ran; the requester may retry.
    Invalidated,
}

/// The traceback attached to errors raised inside the engine itself.
pub const NATIVE_TRACEBACK: &'static str = "<pants native internals>";

/// The message reported when retries of an uncacheable node are used up.
pub const EXHAUSTED_MESSAGE: &'static str = "Exhausted retries for uncacheable node. The filesystem was changing too much.";

/// The text that opens a cycle report.
pub const CYCLE_HEADER: &'static str = "Dep graph contained a cycle:\n  ";

/// The separator between the entries of a cycle report.
pub const CYCLE_SEPARATOR: &'static str = "\n  ";

/// The marker appended to the first and last entries of a cycle report.
pub const CYCLE_MARKER: &'static str = " <-";

/// `f` is a `Throw` whose message is `msg`.
pub open spec fn is_throw_of(f: Failure, msg: Seq<char>) -> bool {
    match f {
        Failure::Throw { message, .. } => message@ == msg,
        Failure::Invalidated => false,
    }
}

/// The entries of a cycle path, with the first and last marked when there are several.
pub open spec fn decorate_cycle(p: Seq<Seq<char>>) -> Seq<Seq<char>> {
    if p.len() > 1 {
        p.update(0, p[0] + CYCLE_MARKER@).update(p.len() - 1, p.last() + CYCLE_MARKER@)
    } else {
        p
    }
}

/// The message that reports the cycle `p`.
pub open spec fn cycle_message(p: Seq<Seq<char>>) -> Seq<char> {
    CYCLE_HEADER@ + join(decorate_cycle(p), CYCLE_SEPARATOR@)
}

/// An engine-raised `Throw` carrying `msg`.
pub fn throw(msg: String) -> (r: Failure)
    ensures
        is_throw_of(r, msg@),
{
    Failure::Throw { message: msg, traceback: owned(NATIVE_TRACEBACK) }
}

impl Failure {
    /// The failure reported for an invalidated dependency.
    pub fn invalidated() -> (r: Failure)
        ensures
            r is Invalidated,
    {
        Failure::Invalidated
    }

    /// The failure reported when an uncacheable node kept being invalidated.
    pub fn exhausted() -> (r: Failure)
        ensures
            is_throw_of(r, EXHAUSTED_MESSAGE@),
    {
        throw(owned(EXHAUSTED_MESSAGE))
    }

    /// The failure reported for a dependency cycle along `path`: every entry on its
    /// own indented line, the first and last marked with ` <-`.
    pub fn cyclic(path: Vec<String>) -> (r: Failure)
        ensures
            is_throw_of(r, cycle_message(views(path@))),
    {
        let mut path = path;
        let n = path.len();
        let ghost p = views(path@);
        if n > 1 {
            let first = concat(path[0].as_str(), CYCLE_MARKER);
            path.set(0, first);
            let last = concat(path[n - 1].as_str(), CYCLE_MARKER);
            path.set(n - 1, last);
            proof {
                assert(views(path@) =~= decorate_cycle(p));
            }
        } else {
            proof {
                assert(views(path@) =~= decorate_cycle(p));
            }
        }
        let body = join_strings(&path, CYCLE_SEPARATOR);
        throw(concat(CYCLE_HEADER, body.as_str()))
    }

    /// Whether this is a `Throw`.
    pub fn is_throw(&self) -> (r: bool)
        ensures
            r == (self is Throw),
    {
        match self {
            Failure::Throw { .. } => true,
            Failure::Invalidated => false,
        }
    }
}

} // verus!
