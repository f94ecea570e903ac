//! Command-line arguments: scoped flags, passthrough arguments, and flag matching.

use vstd::prelude::*;
use crate::scope::{Scope, is_valid_scope_name, scope_name_ok, scope_name_of};
use crate::text::{concat, join, less_text, text_less, join_strings, lemma_views_prefix, lemma_views_push, owned, push_char, push_str, same_text, starts_with, views};

verus! {

/// The identity of an option: its scope, the words of its name, and an optional short name.
#[derive(Clone, Debug, PartialEq, Eq, Hash)]
pub struct OptionId {
    pub scope: Scope,
    pub name_components: Vec<String>,
    pub short_name: Option<String>,
}

/// One flag given on the command line, with the scope it was given in.
#[derive(Clone, Debug, PartialEq, Eq, Hash)]
pub struct Arg {
    pub context: Scope,
    pub flag: String,
    pub value: Option<String>,
}

/// What an argument holds, as text.
pub struct ArgView {
    pub context: Option<Seq<char>>,
    pub flag: Seq<char>,
    pub value: Option<Seq<char>>,
}

/// The view of an optional string.
pub open spec fn opt_view(o: Option<String>) -> Option<Seq<char>> {
    match o {
        Some(s) => Some(s@),
        None => None,
    }
}

impl View for Arg {
    type V = ArgView;

    open spec fn view(&self) -> ArgView {
        ArgView { context: self.context@, flag: self.flag@, value: opt_view(self.value) }
    }
}

/// The views of a sequence of arguments.
pub open spec fn arg_views(v: Seq<Arg>) -> Seq<ArgView> {
    v.map_values(|a: Arg| a@)
}

/// The position of the first `c` in `s` at or after `i`.
pub open spec fn find_from(s: Seq<char>, c: char, i: int) -> Option<int>
    decreases s.len() - i,
{
    if i < 0 || i >= s.len() {
        None
    } else if s[i] == c {
        Some(i)
    } else {
        find_from(s, c, i + 1)
    }
}

/// `s` begins with `p`.
pub open spec fn has_prefix(s: Seq<char>, p: Seq<char>) -> bool {
    p.len() <= s.len() && s.subrange(0, p.len() as int) == p
}

/// The argument a `--flag[=value]` token gives.
pub open spec fn long_arg(scope: Option<Seq<char>>, s: Seq<char>) -> ArgView {
    match find_from(s, '=', 0) {
        Some(i) => ArgView { context: scope, flag: s.subrange(0, i), value: Some(s.subrange(i + 1, s.len() as int)) },
        None => ArgView { context: scope, flag: s, value: None },
    }
}

/// The value part of a `-xVALUE` or `-x=VALUE` token.
pub open spec fn short_value(s: Seq<char>) -> Option<Seq<char>> {
    let rest = s.subrange(2, s.len() as int);
    let v = if rest.len() > 0 && rest[0] == '=' { rest.drop_first() } else { rest };
    if v.len() == 0 { None } else { Some(v) }
}

/// The argument a `-x[=]value` token gives.
pub open spec fn short_arg(scope: Option<Seq<char>>, s: Seq<char>) -> ArgView {
    ArgView { context: scope, flag: s.subrange(0, 2), value: short_value(s) }
}

/// The arguments and passthrough arguments that `strs` give when read in `scope`.
pub open spec fn parse_tokens(strs: Seq<Seq<char>>, scope: Option<Seq<char>>) -> (Seq<ArgView>, Option<Seq<Seq<char>>>)
    decreases strs.len(),
{
    if strs.len() == 0 {
        (Seq::empty(), None)
    } else {
        let s = strs[0];
        let rest = strs.drop_first();
        if s == "--"@ {
            (Seq::empty(), Some(rest))
        } else if has_prefix(s, "--"@) {
            let p = parse_tokens(rest, scope);
            (seq![long_arg(scope, s)] + p.0, p.1)
        } else if has_prefix(s, "-"@) && s.len() >= 2 {
            let p = parse_tokens(rest, scope);
            (seq![short_arg(scope, s)] + p.0, p.1)
        } else if scope_name_ok(s) {
            parse_tokens(rest, Some(s))
        } else {
            parse_tokens(rest, None)
        }
    }
}

/// The flag prefix: `--no` for a negation, else `-`.
pub open spec fn flag_prefix(negate: bool) -> Seq<char> {
    if negate { "--no"@ } else { "-"@ }
}

/// The flag that names `id` with its scope spelled out.
pub open spec fn explicit_flag(id: OptionId, negate: bool) -> Seq<char> {
    join(seq![flag_prefix(negate), scope_name_of(id.scope@)] + views(id.name_components@), "-"@)
}

/// The flag that names `id` within its own scope.
pub open spec fn implicit_flag(id: OptionId, negate: bool) -> Seq<char> {
    join(seq![flag_prefix(negate)] + views(id.name_components@), "-"@)
}

/// Whether argument `a` gives a value for `id`, negated or not.
pub open spec fn arg_matches(a: ArgView, id: OptionId, negate: bool) -> bool {
    ||| a.flag == explicit_flag(id, negate)
    ||| (a.context == id.scope@ && a.flag == implicit_flag(id, negate))
    ||| (id.short_name matches Some(sn) && a.flag == join(seq![Seq::<char>::empty(), sn@], "-"@))
}

/// The position of the first `c` in `s`.
fn find_char(s: &str, c: char) -> (r: Option<usize>)
    ensures
        match find_from(s@, c, 0) {
            Some(i) => r == Some(i as usize),
            None => r is None,
        },
        r matches Some(k) ==> k < s@.len() && s@[k as int] == c && find_from(s@, c, 0) == Some(k as int),
{
    let n = s.unicode_len();
    let mut i: usize = 0;
    while i < n
        invariant
            n == s@.len(),
            i <= n,
            find_from(s@, c, 0) == find_from(s@, c, i as int),
        decreases n - i,
    {
        if s.get_char(i) == c {
            return Some(i);
        }
        i = i + 1;
    }
    None
}

/// A copy of a list of strings.
pub fn copy_strings(v: &Vec<String>) -> (r: Vec<String>)
    ensures
        r@ == v@,
{
    let mut r: Vec<String> = Vec::new();
    let mut i: usize = 0;
    while i < v.len()
        invariant
            i <= v@.len(),
            r@ == v@.subrange(0, i as int),
        decreases v@.len() - i,
    {
        r.push(v[i].clone());
        i = i + 1;
        proof {
            assert(r@ =~= v@.subrange(0, i as int));
        }
    }
    proof {
        assert(r@ =~= v@);
    }
    r
}

impl Arg {
    /// Whether the flag is `parts` joined with dashes.
    fn flag_match(&self, parts: &Vec<String>) -> (r: bool)
        ensures
            r == (self.flag@ == join(views(parts@), "-"@)),
    {
        let joined = join_strings(parts, "-");
        same_text(self.flag.as_str(), joined.as_str())
    }

    /// The flag prefix: `--no` for a negation, else `-`.
    fn prefix(negate: bool) -> (r: &'static str)
        ensures
            r@ == flag_prefix(negate),
    {
        if negate { "--no" } else { "-" }
    }

    /// Whether the flag names `id` with its scope spelled out.
    fn matches_explicit_scope(&self, id: &OptionId, negate: bool) -> (r: bool)
        ensures
            r == (self.flag@ == explicit_flag(*id, negate)),
    {
        let mut parts: Vec<String> = Vec::new();
        parts.push(owned(Self::prefix(negate)));
        parts.push(owned(id.scope.name()));
        let mut i: usize = 0;
        while i < id.name_components.len()
            invariant
                i <= id.name_components@.len(),
                views(parts@) == seq![flag_prefix(negate), scope_name_of(id.scope@)]
                    + views(id.name_components@.subrange(0, i as int)),
            decreases id.name_components@.len() - i,
        {
            let ghost before = parts@;
            let c = id.name_components[i].clone();
            parts.push(c);
            proof {
                lemma_views_push(before, c);
                lemma_views_prefix(id.name_components@, i as int);
            }
            i = i + 1;
            proof {
                assert(views(parts@) =~= seq![flag_prefix(negate), scope_name_of(id.scope@)]
                    + views(id.name_components@.subrange(0, i as int)));
            }
        }
        proof {
            assert(id.name_components@.subrange(0, i as int) =~= id.name_components@);
        }
        self.flag_match(&parts)
    }

    /// Whether the flag names `id` within the scope it was given in.
    fn matches_implicit_scope(&self, id: &OptionId, negate: bool) -> (r: bool)
        ensures
            r == (self.context@ == id.scope@ && self.flag@ == implicit_flag(*id, negate)),
    {
        if !self.context.same_as(&id.scope) {
            return false;
        }
        let mut parts: Vec<String> = Vec::new();
        parts.push(owned(Self::prefix(negate)));
        let mut i: usize = 0;
        while i < id.name_components.len()
            invariant
                i <= id.name_components@.len(),
                views(parts@) == seq![flag_prefix(negate)] + views(id.name_components@.subrange(0, i as int)),
            decreases id.name_components@.len() - i,
        {
            let ghost before = parts@;
            let c = id.name_components[i].clone();
            parts.push(c);
            proof {
                lemma_views_push(before, c);
                lemma_views_prefix(id.name_components@, i as int);
            }
            i = i + 1;
            proof {
                assert(views(parts@) =~= seq![flag_prefix(negate)] + views(id.name_components@.subrange(0, i as int)));
            }
        }
        proof {
            assert(id.name_components@.subrange(0, i as int) =~= id.name_components@);
        }
        self.flag_match(&parts)
    }

    /// Whether the flag is `-s` for the short name `s` of `id`.
    fn matches_short(&self, id: &OptionId) -> (r: bool)
        ensures
            r == (id.short_name matches Some(sn) && self.flag@ == join(seq![Seq::<char>::empty(), sn@], "-"@)),
    {
        match &id.short_name {
            Some(sn) => {
                let mut parts: Vec<String> = Vec::new();
                parts.push(String::new());
                parts.push(sn.clone());
                proof {
                    assert(views(parts@) =~= seq![Seq::<char>::empty(), sn@]);
                }
                self.flag_match(&parts)
            },
            None => false,
        }
    }

    /// Whether this argument gives a value for `id`, negated or not.
    pub fn matches_option(&self, id: &OptionId, negate: bool) -> (r: bool)
        ensures
            r == arg_matches(self@, *id, negate),
    {
        self.matches_explicit_scope(id, negate) || self.matches_implicit_scope(id, negate)
            || self.matches_short(id)
    }

    /// Whether this argument gives a value for `id`.
    pub fn matches(&self, id: &OptionId) -> (r: bool)
        ensures
            r == arg_matches(self@, *id, false),
    {
        self.matches_option(id, false)
    }

    /// Whether this argument gives a negated value for `id`.
    pub fn matches_negation(&self, id: &OptionId) -> (r: bool)
        ensures
            r == arg_matches(self@, *id, true),
    {
        self.matches_option(id, true)
    }
}

/// The command line: the raw arguments, the flags read from them, and any arguments
/// after `--`.
#[derive(Debug)]
pub struct Args {
    arg_strs: Vec<String>,
    args: Vec<Arg>,
    passthrough_args: Option<Vec<String>>,
}

/// The view of an optional list of strings.
pub open spec fn opt_views(o: Option<Vec<String>>) -> Option<Seq<Seq<char>>> {
    match o {
        Some(v) => Some(views(v@)),
        None => None,
    }
}

/// Command-line aliases: each name and the arguments it stands for.
#[derive(Clone, Debug, PartialEq, Eq)]
pub struct AliasMap {
    pub aliases: Vec<(String, Vec<String>)>,
}

/// The arguments that the first alias named `s` stands for.
pub open spec fn alias_of(aliases: Seq<(String, Vec<String>)>, s: Seq<char>) -> Option<Seq<Seq<char>>>
    decreases aliases.len(),
{
    if aliases.len() == 0 {
        None
    } else if aliases[0].0@ == s {
        Some(views(aliases[0].1@))
    } else {
        alias_of(aliases.drop_first(), s)
    }
}

/// What one argument expands to: its alias's arguments, or itself.
pub open spec fn expansion(aliases: Seq<(String, Vec<String>)>, s: Seq<char>) -> Seq<Seq<char>> {
    match alias_of(aliases, s) {
        Some(e) => e,
        None => seq![s],
    }
}

/// `strs` with every alias replaced by the arguments it stands for.
pub open spec fn expand_tokens(strs: Seq<Seq<char>>, aliases: Seq<(String, Vec<String>)>) -> Seq<Seq<char>>
    decreases strs.len(),
{
    if strs.len() == 0 {
        Seq::empty()
    } else {
        expand_tokens(strs.drop_last(), aliases) + expansion(aliases, strs.last())
    }
}

impl AliasMap {
    /// The arguments that the alias `s` stands for, if `s` is an alias.
    pub fn lookup(&self, s: &str) -> (r: Option<&Vec<String>>)
        ensures
            match alias_of(self.aliases@, s@) {
                Some(e) => r matches Some(v) && views(v@) == e,
                None => r is None,
            },
    {
        let mut i: usize = 0;
        proof {
            assert(self.aliases@.subrange(0, self.aliases@.len() as int) =~= self.aliases@);
        }
        while i < self.aliases.len()
            invariant
                i <= self.aliases@.len(),
                alias_of(self.aliases@, s@) == alias_of(self.aliases@.subrange(i as int, self.aliases@.len() as int), s@),
            decreases self.aliases@.len() - i,
        {
            let ghost rest = self.aliases@.subrange(i as int, self.aliases@.len() as int);
            if same_text(self.aliases[i].0.as_str(), s) {
                return Some(&self.aliases[i].1);
            }
            proof {
                assert(rest.drop_first() =~= self.aliases@.subrange(i + 1, self.aliases@.len() as int));
            }
            i = i + 1;
        }
        None
    }

    /// `strs` with every alias replaced by the arguments it stands for.
    pub fn expand(&self, strs: &Vec<String>) -> (r: Vec<String>)
        ensures
            views(r@) == expand_tokens(views(strs@), self.aliases@),
    {
        let mut out: Vec<String> = Vec::new();
        let mut i: usize = 0;
        while i < strs.len()
            invariant
                i <= strs@.len(),
                views(out@) == expand_tokens(views(strs@.subrange(0, i as int)), self.aliases@),
            decreases strs@.len() - i,
        {
            proof {
                lemma_views_prefix(strs@, i as int);
                assert(views(strs@.subrange(0, i as int + 1)).drop_last() =~= views(strs@.subrange(0, i as int)));
            }
            match self.lookup(strs[i].as_str()) {
                Some(e) => {
                    let mut j: usize = 0;
                    let ghost base = out@;
                    while j < e.len()
                        invariant
                            j <= e@.len(),
                            views(out@) == views(base) + views(e@.subrange(0, j as int)),
                        decreases e@.len() - j,
                    {
                        let ghost before = out@;
                        let c = e[j].clone();
                        out.push(c);
                        proof {
                            lemma_views_push(before, c);
                            lemma_views_prefix(e@, j as int);
                        }
                        j = j + 1;
                        proof {
                            assert(views(out@) =~= views(base) + views(e@.subrange(0, j as int)));
                        }
                    }
                    proof {
                        assert(e@.subrange(0, j as int) =~= e@);
                    }
                },
                None => {
                    let ghost before = out@;
                    let c = strs[i].clone();
                    out.push(c);
                    proof {
                        lemma_views_push(before, c);
                        assert(views(out@) =~= views(before) + seq![strs@[i as int]@]);
                    }
                },
            }
            i = i + 1;
        }
        proof {
            assert(strs@.subrange(0, strs@.len() as int) =~= strs@);
        }
        out
    }
}

impl Args {
    /// The raw arguments.
    pub closed spec fn strs(&self) -> Seq<Seq<char>> {
        views(self.arg_strs@)
    }

    /// The flags read from the arguments.
    pub closed spec fn parsed(&self) -> Seq<ArgView> {
        arg_views(self.args@)
    }

    /// The arguments after `--`, if it was given.
    pub closed spec fn passthrough(&self) -> Option<Seq<Seq<char>>> {
        opt_views(self.passthrough_args)
    }

    /// Reads `arg_strs` (without the program name): flags, scope names that set the
    /// scope of later flags, and everything after `--` as passthrough arguments.
    pub fn new(arg_strs: Vec<String>) -> (r: Args)
        ensures
            r.strs() == views(arg_strs@),
            (r.parsed(), r.passthrough()) == parse_tokens(views(arg_strs@), None),
    {
        let ghost all = views(arg_strs@);
        let n = arg_strs.len();
        let mut args: Vec<Arg> = Vec::new();
        let mut scope = Scope::Global;
        let mut i: usize = 0;
        proof {
            assert(all.subrange(0, n as int) =~= all);
        }
        while i < n
            invariant
                n == arg_strs@.len(),
                all == views(arg_strs@),
                i <= n,
                parse_tokens(all, None) == (arg_views(args@) + parse_tokens(all.subrange(i as int, n as int), scope@).0,
                    parse_tokens(all.subrange(i as int, n as int), scope@).1),
            decreases n - i,
        {
            let ghost tail = all.subrange(i as int, n as int);
            let ghost before = args@;
            let s = arg_strs[i].as_str();
            proof {
                assert(tail[0] == s@);
                assert(tail.drop_first() =~= all.subrange(i + 1, n as int));
            }
            if same_text(s, "--") {
                let mut pass: Vec<String> = Vec::new();
                let mut j: usize = i + 1;
                while j < n
                    invariant
                        n == arg_strs@.len(),
                        i < j <= n,
                        all == views(arg_strs@),
                        views(pass@) == all.subrange(i + 1, j as int),
                    decreases n - j,
                {
                    let ghost b = pass@;
                    let c = arg_strs[j].clone();
                    pass.push(c);
                    proof {
                        lemma_views_push(b, c);
                        assert(views(pass@) =~= all.subrange(i + 1, j + 1));
                    }
                    j = j + 1;
                }
                proof {
                    assert(arg_views(args@) + Seq::<ArgView>::empty() =~= arg_views(args@));
                }
                return Args { arg_strs, args, passthrough_args: Some(pass) };
            } else if starts_with(s, "--") {
                let len = s.unicode_len();
                let a = match find_char(s, '=') {
                    Some(k) => {
                        let a = Arg {
                            context: scope.duplicate(),
                            flag: owned(s.substring_char(0, k)),
                            value: Some(owned(s.substring_char(k + 1, len))),
                        };
                        proof {
                            assert(a@.flag == s@.subrange(0, k as int));
                            assert(a@.value == Some(s@.subrange(k + 1, len as int)));
                            assert(a@.context == scope@);
                        }
                        a
                    },
                    None => Arg { context: scope.duplicate(), flag: owned(s), value: None },
                };
                args.push(a);
                proof {
                    assert(a@ == long_arg(scope@, s@));
                    assert(arg_views(args@) =~= arg_views(before).push(a@));
                    assert(arg_views(args@) + parse_tokens(all.subrange(i + 1, n as int), scope@).0
                        =~= arg_views(before) + parse_tokens(tail, scope@).0);
                }
            } else if starts_with(s, "-") && s.unicode_len() >= 2 {
                let len = s.unicode_len();
                let flag = owned(s.substring_char(0, 2));
                let rest = s.substring_char(2, len);
                let v = if rest.unicode_len() > 0 && rest.get_char(0) == '=' {
                    rest.substring_char(1, rest.unicode_len())
                } else {
                    rest
                };
                proof {
                    let r2 = s@.subrange(2, len as int);
                    if r2.len() > 0 && r2[0] == '=' {
                        assert(v@ =~= r2.drop_first());
                    }
                }
                let value = if v.unicode_len() == 0 { None } else { Some(owned(v)) };
                let a = Arg { context: scope.duplicate(), flag, value };
                args.push(a);
                proof {
                    assert(a@ == short_arg(scope@, s@));
                    assert(arg_views(args@) =~= arg_views(before).push(a@));
                    assert(arg_views(args@) + parse_tokens(all.subrange(i + 1, n as int), scope@).0
                        =~= arg_views(before) + parse_tokens(tail, scope@).0);
                }
            } else if is_valid_scope_name(s) {
                scope = Scope::Scope(owned(s));
            } else {
                scope = Scope::Global;
            }
            i = i + 1;
        }
        proof {
            assert(all.subrange(n as int, n as int) =~= Seq::<Seq<char>>::empty());
            assert(arg_views(args@) + Seq::<ArgView>::empty() =~= arg_views(args@));
        }
        Args { arg_strs, args, passthrough_args: None }
    }

    /// The arguments with every alias expanded, read afresh.
    pub fn expand_aliases(&self, alias_map: &AliasMap) -> (r: Args)
        ensures
            r.strs() == expand_tokens(self.strs(), alias_map.aliases@),
            (r.parsed(), r.passthrough()) == parse_tokens(r.strs(), None),
    {
        Args::new(alias_map.expand(&self.arg_strs))
    }

    /// The raw arguments.
    pub fn arg_strs(&self) -> (r: &Vec<String>)
        ensures
            views(r@) == self.strs(),
    {
        &self.arg_strs
    }

    /// The flags read from the arguments.
    pub fn args(&self) -> (r: &Vec<Arg>)
        ensures
            arg_views(r@) == self.parsed(),
    {
        &self.args
    }

    /// The arguments after `--`, if it was given.
    pub fn passthrough_args(&self) -> (r: &Option<Vec<String>>)
        ensures
            opt_views(*r) == self.passthrough(),
    {
        &self.passthrough_args
    }
}

/// `c` in lower case, for ASCII letters.
pub open spec fn lower_char(c: char) -> char {
    if 'A' <= c && c <= 'Z' { (((c as u8) + 32) as u8) as char } else { c }
}

/// `s` with its ASCII letters in lower case.
pub open spec fn lower_text(s: Seq<char>) -> Seq<char> {
    s.map_values(|c: char| lower_char(c))
}

/// `s` with its ASCII letters in lower case.
pub fn ascii_lower(s: &str) -> (r: String)
    ensures
        r@ == lower_text(s@),
{
    let n = s.unicode_len();
    let mut r = String::new();
    let mut i: usize = 0;
    while i < n
        invariant
            n == s@.len(),
            i <= n,
            r@ == lower_text(s@.subrange(0, i as int)),
        decreases n - i,
    {
        let c = s.get_char(i);
        let l = if 'A' <= c && c <= 'Z' { ((c as u8) + 32) as char } else { c };
        push_char(&mut r, l);
        i = i + 1;
        proof {
            assert(r@ =~= lower_text(s@.subrange(0, i as int)));
        }
    }
    proof {
        assert(s@.subrange(0, n as int) =~= s@);
    }
    r
}

/// How an option is written on the command line, for messages.
pub open spec fn option_display(id: OptionId) -> Seq<char> {
    "--"@ + match id.scope@ {
        None => Seq::<char>::empty(),
        Some(n) => lower_text(n) + "-"@,
    } + lower_text(join(views(id.name_components@), "-"@))
}

/// The position of the rightmost argument of `args` that gives a value for `id`.
pub open spec fn rightmost_match(args: Seq<ArgView>, id: OptionId) -> Option<int>
    decreases args.len(),
{
    if args.len() == 0 {
        None
    } else if arg_matches(args.last(), id, false) {
        Some(args.len() - 1)
    } else {
        rightmost_match(args.drop_last(), id)
    }
}

/// The position of the rightmost argument of `args` that gives `id` a value or a negated
/// value, and whether it is negated.
pub open spec fn rightmost_bool(args: Seq<ArgView>, id: OptionId) -> Option<(int, bool)>
    decreases args.len(),
{
    if args.len() == 0 {
        None
    } else if arg_matches(args.last(), id, false) {
        Some((args.len() - 1, false))
    } else if arg_matches(args.last(), id, true) {
        Some((args.len() - 1, true))
    } else {
        rightmost_bool(args.drop_last(), id)
    }
}

/// The boolean a flag value denotes.
pub open spec fn bool_named(s: Seq<char>) -> Option<bool> {
    if s == "true"@ || s == "True"@ {
        Some(true)
    } else if s == "false"@ || s == "False"@ {
        Some(false)
    } else {
        None
    }
}

/// The boolean an argument gives: `true` for a bare flag, else its value read as a boolean.
pub open spec fn arg_bool(a: ArgView) -> Option<bool> {
    match a.value {
        None => Some(true),
        Some(v) => bool_named(v),
    }
}

/// The flags of `args` whose mark in `used` is clear, in order.
pub open spec fn unused_args(args: Seq<ArgView>, used: Seq<bool>) -> Seq<ArgView>
    decreases args.len(),
{
    if args.len() == 0 || used.len() == 0 {
        Seq::empty()
    } else if used.last() {
        unused_args(args.drop_last(), used.drop_last())
    } else {
        unused_args(args.drop_last(), used.drop_last()).push(args.last())
    }
}

/// `s` with `x` placed before its first element that `x` sorts strictly before.
pub open spec fn insert_sorted(s: Seq<Seq<char>>, x: Seq<char>) -> Seq<Seq<char>>
    decreases s.len(),
{
    if s.len() == 0 {
        seq![x]
    } else if text_less(x, s[0]) {
        seq![x] + s
    } else {
        seq![s[0]] + insert_sorted(s.drop_first(), x)
    }
}

/// `s` in text order, equal texts keeping their order.
pub open spec fn sort_texts(s: Seq<Seq<char>>) -> Seq<Seq<char>>
    decreases s.len(),
{
    if s.len() == 0 {
        Seq::empty()
    } else {
        insert_sorted(sort_texts(s.drop_last()), s.last())
    }
}

/// The distinct contexts of `args`, in order of first appearance.
pub open spec fn contexts_of(args: Seq<ArgView>) -> Seq<Option<Seq<char>>>
    decreases args.len(),
{
    if args.len() == 0 {
        Seq::empty()
    } else if contexts_of(args.drop_last()).contains(args.last().context) {
        contexts_of(args.drop_last())
    } else {
        contexts_of(args.drop_last()).push(args.last().context)
    }
}

/// The flags of the arguments of `args` given in `scope`, in order.
pub open spec fn flags_in(args: Seq<ArgView>, scope: Option<Seq<char>>) -> Seq<Seq<char>>
    decreases args.len(),
{
    if args.len() == 0 {
        Seq::empty()
    } else if args.last().context == scope {
        flags_in(args.drop_last(), scope).push(args.last().flag)
    } else {
        flags_in(args.drop_last(), scope)
    }
}

proof fn lemma_insert_sorted_at(s: Seq<Seq<char>>, x: Seq<char>, p: int)
    requires
        0 <= p <= s.len(),
        forall|q: int| 0 <= q < p ==> !text_less(x, #[trigger] s[q]),
        p == s.len() || text_less(x, s[p]),
    ensures
        insert_sorted(s, x) == s.subrange(0, p) + seq![x] + s.subrange(p, s.len() as int),
    decreases p,
{
    if p == 0 {
        if s.len() == 0 {
            assert(seq![x] =~= s.subrange(0, 0) + seq![x] + s.subrange(0, 0));
        } else {
            assert(seq![x] + s =~= s.subrange(0, 0) + seq![x] + s.subrange(0, s.len() as int));
        }
    } else {
        let t = s.drop_first();
        assert forall|q: int| 0 <= q < p - 1 implies !text_less(x, #[trigger] t[q]) by {
            assert(t[q] == s[q + 1]);
        }
        if p < s.len() {
            assert(t[p - 1] == s[p]);
        }
        lemma_insert_sorted_at(t, x, p - 1);
        assert(seq![s[0]] + (t.subrange(0, p - 1) + seq![x] + t.subrange(p - 1, t.len() as int))
            =~= s.subrange(0, p) + seq![x] + s.subrange(p, s.len() as int));
    }
}

/// Inserts `x` into `v` after every element it does not sort strictly before.
fn insert_text(v: &mut Vec<String>, x: String)
    ensures
        views(final(v)@) == insert_sorted(views(old(v)@), x@),
{
    let ghost s = views(v@);
    let mut p: usize = 0;
    while p < v.len() && !less_text(x.as_str(), v[p].as_str())
        invariant
            views(v@) == s,
            p <= v@.len(),
            forall|q: int| 0 <= q < p ==> !text_less(x@, #[trigger] s[q]),
        decreases v@.len() - p,
    {
        p = p + 1;
    }
    proof {
        lemma_insert_sorted_at(s, x@, p as int);
    }
    let ghost xv = x@;
    v.insert(p, x);
    proof {
        assert(views(v@) =~= s.subrange(0, p as int) + seq![xv] + s.subrange(p as int, s.len() as int));
    }
}

/// Which flags of a command line have given a value so far.
#[derive(Debug)]
pub struct ArgsTracker {
    args: Vec<Arg>,
    consumed: Vec<bool>,
}

impl ArgsTracker {
    /// The flags tracked.
    pub closed spec fn parsed(&self) -> Seq<ArgView> {
        arg_views(self.args@)
    }

    /// Which flags have given a value so far.
    pub closed spec fn used(&self) -> Seq<bool> {
        self.consumed@
    }

    /// Every flag has a used mark.
    pub closed spec fn wf(&self) -> bool {
        self.consumed@.len() == self.args@.len()
    }

    /// A tracker of the flags of `args`, none used yet.
    fn new(args: &Args) -> (r: ArgsTracker)
        ensures
            r.wf(),
            r.parsed() == args.parsed(),
            r.used().len() == args.parsed().len(),
            forall|i: int| 0 <= i < r.used().len() ==> !r.used()[i],
    {
        let n = args.args.len();
        let mut copied: Vec<Arg> = Vec::new();
        let mut consumed: Vec<bool> = Vec::new();
        let mut i: usize = 0;
        while i < n
            invariant
                n == args.args@.len(),
                i <= n,
                consumed@.len() == i,
                copied@.len() == i,
                forall|j: int| 0 <= j < i ==> (#[trigger] copied@[j])@ == args.args@[j]@,
                forall|j: int| 0 <= j < i ==> !consumed@[j],
            decreases n - i,
        {
            let a = copy_arg(&args.args[i]);
            copied.push(a);
            consumed.push(false);
            i = i + 1;
        }
        proof {
            assert(arg_views(copied@) =~= arg_views(args.args@));
        }
        ArgsTracker { args: copied, consumed }
    }

    /// Marks flag `i` as used.
    fn consume_arg(&mut self, i: usize)
        requires
            old(self).wf(),
            i < old(self).used().len(),
        ensures
            final(self).wf(),
            final(self).parsed() == old(self).parsed(),
            final(self).used() == old(self).used().update(i as int, true),
    {
        self.consumed.set(i, true);
    }

    /// The flags not used so far, in order.
    pub fn unconsumed_args(&self) -> (r: Vec<Arg>)
        requires
            self.wf(),
        ensures
            arg_views(r@) == unused_args(self.parsed(), self.used()),
    {
        let n = self.args.len();
        let mut out: Vec<Arg> = Vec::new();
        let mut i: usize = 0;
        while i < n
            invariant
                n == self.args@.len(),
                self.wf(),
                i <= n,
                arg_views(out@) == unused_args(self.parsed().subrange(0, i as int), self.consumed@.subrange(0, i as int)),
            decreases n - i,
        {
            let ghost before = out@;
            proof {
                assert(self.parsed().subrange(0, i + 1).drop_last() =~= self.parsed().subrange(0, i as int));
                assert(self.consumed@.subrange(0, i + 1).drop_last() =~= self.consumed@.subrange(0, i as int));
                assert(self.parsed().subrange(0, i + 1).last() == self.args@[i as int]@);
            }
            if !self.consumed[i] {
                let a = copy_arg(&self.args[i]);
                out.push(a);
                proof {
                    assert(arg_views(out@) =~= arg_views(before).push(a@));
                }
            }
            i = i + 1;
        }
        proof {
            assert(self.parsed().subrange(0, n as int) =~= self.parsed());
            assert(self.consumed@.subrange(0, n as int) =~= self.consumed@);
        }
        out
    }

    /// The flags not used so far, by the scope they were given in: scopes in order of first
    /// appearance, each scope's flags in text order.
    pub fn get_unconsumed_flags(&self) -> (r: Vec<(Scope, Vec<String>)>)
        requires
            self.wf(),
        ensures
            r@.len() == contexts_of(unused_args(self.parsed(), self.used())).len(),
            forall|j: int| 0 <= j < r@.len() ==> (#[trigger] r@[j]).0@ == contexts_of(unused_args(self.parsed(), self.used()))[j]
                && views(r@[j].1@) == sort_texts(flags_in(unused_args(self.parsed(), self.used()), r@[j].0@)),
    {
        let unused = self.unconsumed_args();
        let ghost u = arg_views(unused@);
        let n = unused.len();
        let mut scopes: Vec<Scope> = Vec::new();
        let mut i: usize = 0;
        while i < n
            invariant
                n == unused@.len(),
                u == arg_views(unused@),
                i <= n,
                scopes@.len() == contexts_of(u.subrange(0, i as int)).len(),
                forall|j: int| 0 <= j < scopes@.len() ==> (#[trigger] scopes@[j])@ == contexts_of(u.subrange(0, i as int))[j],
            decreases n - i,
        {
            let ghost prev = contexts_of(u.subrange(0, i as int));
            proof {
                assert(u.subrange(0, i + 1).drop_last() =~= u.subrange(0, i as int));
                assert(u.subrange(0, i + 1).last() == unused@[i as int]@);
            }
            let mut k: usize = 0;
            let mut found = false;
            while k < scopes.len()
                invariant
                    n == unused@.len(),
                    i < n,
                    scopes@.len() == prev.len(),
                    forall|j: int| 0 <= j < scopes@.len() ==> (#[trigger] scopes@[j])@ == prev[j],
                    k <= scopes@.len(),
                    found ==> prev.contains(unused@[i as int]@.context),
                    !found ==> forall|j: int| 0 <= j < k ==> prev[j] != unused@[i as int]@.context,
                decreases scopes@.len() - k,
            {
                if !found && scopes[k].same_as(&unused[i].context) {
                    found = true;
                    proof {
                        assert(prev[k as int] == unused@[i as int]@.context);
                    }
                }
                k = k + 1;
            }
            if !found {
                proof {
                    assert(!prev.contains(unused@[i as int]@.context));
                }
                scopes.push(unused[i].context.duplicate());
            }
            i = i + 1;
        }
        proof {
            assert(u.subrange(0, n as int) =~= u);
        }
        let mut out: Vec<(Scope, Vec<String>)> = Vec::new();
        let mut j: usize = 0;
        while j < scopes.len()
            invariant
                n == unused@.len(),
                u == arg_views(unused@),
                scopes@.len() == contexts_of(u).len(),
                forall|x: int| 0 <= x < scopes@.len() ==> (#[trigger] scopes@[x])@ == contexts_of(u)[x],
                j <= scopes@.len(),
                out@.len() == j,
                forall|x: int| 0 <= x < j ==> (#[trigger] out@[x]).0@ == contexts_of(u)[x]
                    && views(out@[x].1@) == sort_texts(flags_in(u, out@[x].0@)),
            decreases scopes@.len() - j,
        {
            let scope = &scopes[j];
            let mut flags: Vec<String> = Vec::new();
            let mut i: usize = 0;
            while i < n
                invariant
                    n == unused@.len(),
                    u == arg_views(unused@),
                    i <= n,
                    views(flags@) == sort_texts(flags_in(u.subrange(0, i as int), scope@)),
                decreases n - i,
            {
                proof {
                    assert(u.subrange(0, i + 1).drop_last() =~= u.subrange(0, i as int));
                    assert(u.subrange(0, i + 1).last() == unused@[i as int]@);
                }
                if unused[i].context.same_as(scope) {
                    let ghost f = flags_in(u.subrange(0, i as int), scope@);
                    insert_text(&mut flags, unused[i].flag.clone());
                    proof {
                        let g = flags_in(u.subrange(0, i + 1), scope@);
                        assert(g == f.push(unused@[i as int].flag@));
                        assert(g.drop_last() =~= f);
                    }
                }
                i = i + 1;
            }
            proof {
                assert(u.subrange(0, n as int) =~= u);
            }
            out.push((scope.duplicate(), flags));
            j = j + 1;
        }
        out
    }

}

/// Reads option values from the command line, noting which flags were used.
#[derive(Debug)]
pub struct ArgsReader {
    args: Args,
    tracker: ArgsTracker,
}

impl ArgsReader {
    /// The flags read from the command line.
    pub closed spec fn parsed(&self) -> Seq<ArgView> {
        self.args.parsed()
    }

    /// The command line being read.
    pub closed spec fn command_line(&self) -> Args {
        self.args
    }

    /// Which flags have given a value so far.
    pub closed spec fn used(&self) -> Seq<bool> {
        self.tracker.used()
    }

    /// The tracker follows the flags of the command line.
    pub closed spec fn wf(&self) -> bool {
        self.tracker.wf() && self.tracker.parsed() == self.args.parsed()
    }

    /// A reader of `args` that has used no flag yet.
    pub fn new(args: Args) -> (r: ArgsReader)
        ensures
            r.wf(),
            r.command_line() == args,
            r.parsed() == args.parsed(),
            forall|i: int| 0 <= i < r.used().len() ==> !r.used()[i],
    {
        let tracker = ArgsTracker::new(&args);
        ArgsReader { args, tracker }
    }

    /// The tracker of which flags were used.
    pub fn get_tracker(&self) -> (r: &ArgsTracker)
        ensures
            r.used() == self.used(),
            self.wf() ==> (r.wf() && r.parsed() == self.parsed()),
    {
        &self.tracker
    }

    /// A reader of the command line with every alias expanded.
    pub fn expand_aliases(&self, alias_map: &AliasMap) -> (r: ArgsReader)
        ensures
            r.wf(),
            r.command_line().strs() == expand_tokens(self.command_line().strs(), alias_map.aliases@),
            (r.parsed(), r.command_line().passthrough()) == parse_tokens(r.command_line().strs(), None),
            forall|i: int| 0 <= i < r.used().len() ==> !r.used()[i],
    {
        ArgsReader::new(self.args.expand_aliases(alias_map))
    }

    /// The raw arguments.
    pub fn get_args(&self) -> (r: Vec<String>)
        ensures
            views(r@) == self.command_line().strs(),
    {
        copy_strings(&self.args.arg_strs)
    }

    /// The arguments after `--`, if it was given.
    pub fn get_passthrough_args(&self) -> (r: Option<Vec<String>>)
        ensures
            opt_views(r) == self.command_line().passthrough(),
    {
        match &self.args.passthrough_args {
            Some(v) => Some(copy_strings(v)),
            None => None,
        }
    }

    /// How `id` is written on the command line, for messages.
    pub fn display(&self, id: &OptionId) -> (r: String)
        ensures
            r@ == option_display(*id),
    {
        let mut r = owned("--");
        match &id.scope {
            Scope::Global => {},
            Scope::Scope(s) => {
                let l = ascii_lower(s.as_str());
                push_str(&mut r, l.as_str());
                push_str(&mut r, "-");
            },
        }
        let name = join_strings(&id.name_components, "-");
        let l = ascii_lower(name.as_str());
        push_str(&mut r, l.as_str());
        proof {
            assert(r@ =~= option_display(*id));
        }
        r
    }

    /// Marks flag `i` as used.
    fn consume(&mut self, i: usize)
        requires
            old(self).wf(),
            i < old(self).used().len(),
        ensures
            final(self).wf(),
            final(self).parsed() == old(self).parsed(),
            final(self).command_line() == old(self).command_line(),
            final(self).used() == old(self).used().update(i as int, true),
    {
        self.tracker.consume_arg(i);
    }

    /// The rightmost value given for `id`, marking that flag used.
    pub fn get_string(&mut self, id: &OptionId) -> (r: Result<Option<String>, String>)
        requires
            old(self).wf(),
        ensures
            final(self).wf(),
            final(self).parsed() == old(self).parsed(),
            match rightmost_match(old(self).parsed(), *id) {
                None => r == Ok::<Option<String>, String>(None) && final(self).used() == old(self).used(),
                Some(i) => final(self).used() == old(self).used().update(i, true) && match old(self).parsed()[i].value {
                    Some(v) => r matches Ok(Some(s)) && s@ == v,
                    None => r matches Err(m) && m@ == "Expected list option "@ + option_display(*id) + " to have a value."@,
                },
            },
    {
        let n = self.args.args.len();
        let mut i: usize = n;
        proof {
            assert(self.parsed().subrange(0, n as int) =~= self.parsed());
        }
        while i > 0
            invariant
                n == self.args.args@.len(),
                self.wf(),
                *self == *old(self),
                i <= n,
                rightmost_match(self.parsed(), *id) == rightmost_match(self.parsed().subrange(0, i as int), *id),
            decreases i,
        {
            let ghost pre = self.parsed().subrange(0, i as int);
            proof {
                assert(pre.last() == self.args.args@[i - 1]@);
                assert(pre.drop_last() =~= self.parsed().subrange(0, i - 1));
            }
            if self.args.args[i - 1].matches(id) {
                self.consume(i - 1);
                return match &self.args.args[i - 1].value {
                    Some(v) => Ok(Some(v.clone())),
                    None => {
                        let d = self.display(id);
                        let m = concat("Expected list option ", d.as_str());
                        Err(concat(m.as_str(), " to have a value."))
                    },
                };
            }
            i = i - 1;
        }
        Ok(None)
    }

    /// The rightmost boolean given for `id`, inverted for a negated flag, marking that flag used.
    pub fn get_bool(&mut self, id: &OptionId) -> (r: Result<Option<bool>, String>)
        requires
            old(self).wf(),
        ensures
            final(self).wf(),
            final(self).parsed() == old(self).parsed(),
            match rightmost_bool(old(self).parsed(), *id) {
                None => r == Ok::<Option<bool>, String>(None) && final(self).used() == old(self).used(),
                Some((i, negated)) => final(self).used() == old(self).used().update(i, true)
                    && match arg_bool(old(self).parsed()[i]) {
                        Some(b) => r == Ok::<Option<bool>, String>(Some(if negated { !b } else { b })),
                        None => r is Err,
                    },
            },
    {
        let n = self.args.args.len();
        let mut i: usize = n;
        proof {
            assert(self.parsed().subrange(0, n as int) =~= self.parsed());
        }
        while i > 0
            invariant
                n == self.args.args@.len(),
                self.wf(),
                *self == *old(self),
                i <= n,
                rightmost_bool(self.parsed(), *id) == rightmost_bool(self.parsed().subrange(0, i as int), *id),
            decreases i,
        {
            let ghost pre = self.parsed().subrange(0, i as int);
            proof {
                assert(pre.last() == self.args.args@[i - 1]@);
                assert(pre.drop_last() =~= self.parsed().subrange(0, i - 1));
            }
            if self.args.args[i - 1].matches(id) {
                self.consume(i - 1);
                return to_bool(&self.args.args[i - 1]);
            } else if self.args.args[i - 1].matches_negation(id) {
                self.consume(i - 1);
                return match to_bool(&self.args.args[i - 1]) {
                    Ok(Some(b)) => Ok(Some(!b)),
                    other => other,
                };
            }
            i = i - 1;
        }
        Ok(None)
    }
}

/// The boolean an argument gives: `true` for a bare flag, else its value read as a boolean.
fn to_bool(a: &Arg) -> (r: Result<Option<bool>, String>)
    ensures
        match arg_bool(a@) {
            Some(b) => r == Ok::<Option<bool>, String>(Some(b)),
            None => r is Err,
        },
{
    match &a.value {
        None => Ok(Some(true)),
        Some(v) => {
            if same_text(v.as_str(), "true") || same_text(v.as_str(), "True") {
                Ok(Some(true))
            } else if same_text(v.as_str(), "false") || same_text(v.as_str(), "False") {
                Ok(Some(false))
            } else {
                let m = concat("Problem parsing ", a.flag.as_str());
                let m2 = concat(m.as_str(), " bool value: ");
                Err(concat(m2.as_str(), v.as_str()))
            }
        },
    }
}

/// A copy of an argument.
fn copy_arg(a: &Arg) -> (r: Arg)
    ensures
        r@ == a@,
{
    Arg {
        context: a.context.duplicate(),
        flag: a.flag.clone(),
        value: match &a.value {
            Some(v) => Some(v.clone()),
            None => None,
        },
    }
}

} // verus!
