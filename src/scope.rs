//! Option scopes and goal descriptions.

use vstd::prelude::*;
use crate::text::{owned, same_text};

verus! {

/// Whether `text` matches the regular expression `pattern`; `None` where the pattern
/// does not compile.
pub uninterp spec fn regex_match_of(pattern: Seq<char>, text: Seq<char>) -> Option<bool>;

/// Relies on `regex::Regex::new` and `Regex::is_match`: whether `text` matches `pattern`.
#[verifier::external_body]
fn regex_matches(pattern: &str, text: &str) -> (r: Option<bool>)
    ensures
        r == regex_match_of(pattern@, text@),
{
    match regex::Regex::new(pattern) {
        Ok(re) => Some(re.is_match(text)),
        Err(_) => None,
    }
}

/// The shape of a scope name: dash-separated runs of lower-case letters, digits and `_`.
pub const SCOPE_NAME_PATTERN: &'static str = "^(?:[a-z0-9_])+(?:-(?:[a-z0-9_])+)*$";

/// The one well-shaped word that is not a scope: it names the program itself.
pub const RESERVED_NAME: &'static str = "pants";

/// The name of the global scope.
pub const GLOBAL_NAME: &'static str = "GLOBAL";

/// `name` can name a scope on the command line.
pub open spec fn scope_name_ok(name: Seq<char>) -> bool {
    regex_match_of(SCOPE_NAME_PATTERN@, name) == Some(true) && name != RESERVED_NAME@
}

/// Whether `name` can name a scope on the command line. The pattern is compiled on each
/// call: the library holds no statics.
pub fn is_valid_scope_name(name: &str) -> (r: bool)
    ensures
        r == scope_name_ok(name@),
{
    let m = regex_matches(SCOPE_NAME_PATTERN, name);
    match m {
        Some(true) => !same_text(name, RESERVED_NAME),
        _ => false,
    }
}

/// An options scope: the global one, or a named one.
#[derive(Clone, Debug, PartialEq, Eq, Hash)]
pub enum Scope {
    Global,
    Scope(String),
}

impl View for Scope {
    type V = Option<Seq<char>>;

    /// `None` for the global scope, else the scope's name.
    open spec fn view(&self) -> Option<Seq<char>> {
        match self {
            Scope::Global => None,
            Scope::Scope(s) => Some(s@),
        }
    }
}

/// The name that a scope view goes by.
pub open spec fn scope_name_of(s: Option<Seq<char>>) -> Seq<char> {
    match s {
        None => GLOBAL_NAME@,
        Some(n) => n,
    }
}

impl Scope {
    /// The scope called `name`; the empty name and `GLOBAL` both mean the global scope.
    pub fn named(name: &str) -> (r: Scope)
        ensures
            (name@ == Seq::<char>::empty() || name@ == GLOBAL_NAME@) ==> r is Global,
            !(name@ == Seq::<char>::empty() || name@ == GLOBAL_NAME@) ==> r@ == Some(name@),
    {
        if name.unicode_len() == 0 {
            proof {
                assert(name@ =~= Seq::<char>::empty());
            }
            Scope::Global
        } else if same_text(name, GLOBAL_NAME) {
            Scope::Global
        } else {
            Scope::Scope(owned(name))
        }
    }

    /// The scope's name; `GLOBAL` for the global scope.
    pub fn name(&self) -> (r: &str)
        ensures
            r@ == scope_name_of(self@),
    {
        match self {
            Scope::Global => GLOBAL_NAME,
            Scope::Scope(s) => s.as_str(),
        }
    }

    /// A copy of this scope.
    pub fn duplicate(&self) -> (r: Scope)
        ensures
            r@ == self@,
    {
        match self {
            Scope::Global => Scope::Global,
            Scope::Scope(s) => Scope::Scope(s.clone()),
        }
    }

    /// Whether two scopes are the same.
    pub fn same_as(&self, o: &Scope) -> (r: bool)
        ensures
            r == (self@ == o@),
    {
        match (self, o) {
            (Scope::Global, Scope::Global) => true,
            (Scope::Scope(a), Scope::Scope(b)) => same_text(a.as_str(), b.as_str()),
            _ => false,
        }
    }
}

/// A goal known to the options system.
#[derive(Clone, Debug, PartialEq, Eq)]
pub struct GoalInfo {
    pub scope_name: String,
    pub is_builtin: bool,
    pub is_auxiliary: bool,
    pub aliases: Vec<String>,
}

impl GoalInfo {
    /// A goal description with owned copies of its names.
    pub fn new(scope_name: &str, is_builtin: bool, is_auxiliary: bool, aliases: Vec<&str>) -> (r: GoalInfo)
        ensures
            r.scope_name@ == scope_name@,
            r.is_builtin == is_builtin,
            r.is_auxiliary == is_auxiliary,
            r.aliases@.len() == aliases@.len(),
            forall|i: int| 0 <= i < aliases@.len() ==> (#[trigger] r.aliases@[i])@ == aliases@[i]@,
    {
        let mut owned_aliases: Vec<String> = Vec::new();
        let mut i: usize = 0;
        while i < aliases.len()
            invariant
                i <= aliases@.len(),
                owned_aliases@.len() == i,
                forall|j: int| 0 <= j < i ==> (#[trigger] owned_aliases@[j])@ == aliases@[j]@,
            decreases aliases@.len() - i,
        {
            owned_aliases.push(owned(aliases[i]));
            i = i + 1;
        }
        GoalInfo { scope_name: owned(scope_name), is_builtin, is_auxiliary, aliases: owned_aliases }
    }
}

} // verus!
