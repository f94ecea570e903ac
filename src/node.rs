//! The node kinds that the memoization graph schedules, their results, and what the
//! graph asks of each: identity text, filesystem subject, caching, and workunit naming.

use std::sync::Arc;
use vstd::prelude::*;
use crate::digest::Digest;
use crate::download::DownloadedFile;
use crate::failure::Failure;
use crate::params::{Key, Params, Value};
use crate::process::{FallibleProcessResultWithPlatform, MultiPlatformExecuteProcess};
use crate::rules::{DisplayInfo, Types};
use crate::select::Select;
use crate::task::Task;
use crate::text::{concat, decimal, decimal_string, join, join_strings, owned, push_char, push_str, views};

verus! {

/// A file, by its path relative to the build root.
#[derive(Clone, Debug, PartialEq, Eq, Hash)]
pub struct File {
    pub path: String,
    pub is_executable: bool,
}

/// A symbolic link, by its path relative to the build root.
#[derive(Clone, Debug, PartialEq, Eq, Hash)]
pub struct Link(pub String);

/// A directory, by its path relative to the build root.
#[derive(Clone, Debug, PartialEq, Eq, Hash)]
pub struct Dir(pub String);

/// One entry of a directory listing.
#[derive(Clone, Debug, PartialEq, Eq, Hash)]
pub enum Stat {
    Link(Link),
    Dir(Dir),
    File(File),
}

/// The entries of one directory.
#[derive(Clone, Debug, PartialEq, Eq, Hash)]
pub struct DirectoryListing(pub Vec<Stat>);

/// A path matched by a glob, with what it is.
#[derive(Clone, Debug, PartialEq, Eq, Hash)]
pub enum PathStat {
    File { path: String, stat: File },
    Dir { path: String, stat: Dir },
}

/// A stored directory tree: its digest and the paths it holds.
#[derive(Clone, Debug, PartialEq, Eq, Hash)]
pub struct StoreSnapshot {
    pub digest: Digest,
    pub path_stats: Vec<PathStat>,
}

/// The result of a process node.
#[derive(Clone, Debug, PartialEq, Eq, Hash)]
pub struct ProcessResult(pub FallibleProcessResultWithPlatform);

/// A node that reads where a symbolic link points, without following it further.
#[derive(Clone, Debug, PartialEq, Eq, Hash)]
pub struct ReadLink(pub Link);

/// Where a symbolic link points.
#[derive(Clone, Debug, PartialEq, Eq, Hash)]
pub struct LinkDest(pub String);

/// A node that stores a file's content and yields its digest.
#[derive(Clone, Debug, PartialEq, Eq, Hash)]
pub struct DigestFile(pub File);

/// A node that lists one directory, expanding no links.
#[derive(Clone, Debug, PartialEq, Eq, Hash)]
pub struct Scandir(pub Dir);

/// A node that captures the files matched by the path globs of a host value.
#[derive(Clone, Copy, Debug, PartialEq, Eq, Hash, Structural)]
pub struct Snapshot(pub Key);

/// Every kind of schedulable work; each variant is its own memoization identity.
#[derive(Clone, Debug, PartialEq, Eq, Hash)]
pub enum NodeKey {
    DigestFile(DigestFile),
    DownloadedFile(DownloadedFile),
    MultiPlatformExecuteProcess(Box<MultiPlatformExecuteProcess>),
    ReadLink(ReadLink),
    Scandir(Scandir),
    Select(Box<Select>),
    Snapshot(Snapshot),
    Task(Box<Task>),
}

/// What a node produced.
#[derive(Clone, Debug, PartialEq, Eq)]
pub enum NodeResult {
    Digest(Digest),
    DirectoryListing(Arc<DirectoryListing>),
    LinkDest(LinkDest),
    ProcessResult(ProcessResult),
    Snapshot(Arc<StoreSnapshot>),
    Value(Value),
}

/// The product name of a node, as the visualizer groups nodes.
pub open spec fn product_text(n: NodeKey, types: Types) -> Seq<char> {
    match n {
        NodeKey::MultiPlatformExecuteProcess(_) => "ProcessResult"@,
        NodeKey::DownloadedFile(_) => "DownloadedFile"@,
        NodeKey::Select(s) => types.name_of(s.product),
        NodeKey::Task(t) => types.name_of(t.product),
        NodeKey::Snapshot(_) => "Snapshot"@,
        NodeKey::DigestFile(_) => "DigestFile"@,
        NodeKey::ReadLink(_) => "LinkDest"@,
        NodeKey::Scandir(_) => "DirectoryListing"@,
    }
}

/// The filesystem path a node reads, if it reads one.
pub open spec fn fs_subject_of(n: NodeKey) -> Option<Seq<char>> {
    match n {
        NodeKey::DigestFile(d) => Some(d.0.path@),
        NodeKey::ReadLink(r) => Some(r.0.0@),
        NodeKey::Scandir(s) => Some(s.0.0@),
        _ => None,
    }
}

/// The identity text of a node, as shown in traces and as its fallback workunit name.
pub open spec fn node_text(n: NodeKey, types: Types) -> Seq<char> {
    match n {
        NodeKey::DigestFile(d) => "DigestFile("@ + d.0.path@ + ")"@,
        NodeKey::DownloadedFile(d) => "DownloadedFile("@ + decimal(d.0.id as nat) + ")"@,
        NodeKey::MultiPlatformExecuteProcess(_) => "MultiPlatformExecuteProcess"@,
        NodeKey::ReadLink(r) => "ReadLink("@ + r.0.0@ + ")"@,
        NodeKey::Scandir(s) => "Scandir("@ + s.0.0@ + ")"@,
        NodeKey::Select(s) => "Select("@ + params_text(s.params, types) + ", "@ + types.name_of(s.product) + ")"@,
        NodeKey::Task(t) => "Task("@ + t.task.func.name@ + ", "@ + params_text(t.params, types) + ", "@
            + types.name_of(t.product) + ", "@ + bool_text(t.task.cacheable) + ")"@,
        NodeKey::Snapshot(s) => "Snapshot("@ + decimal(s.0.id as nat) + ")"@,
    }
}

/// The types of a parameter bag's keys, in order, joined with `, `.
pub open spec fn params_text(p: Params, types: Types) -> Seq<char> {
    join(p.keys_seq().map_values(|k: Key| types.name_of(k.type_id)), ", "@)
}

/// `true` or `false`.
pub open spec fn bool_text(b: bool) -> Seq<char> {
    if b { "true"@ } else { "false"@ }
}

/// The types of `p`'s keys, in order, joined with `, `.
pub fn describe_params(p: &Params, types: &Types) -> (r: String)
    ensures
        r@ == params_text(*p, *types),
{
    let mut names: Vec<String> = Vec::new();
    let mut i: usize = 0;
    while i < p.len()
        invariant
            i <= p.keys_seq().len(),
            views(names@) == p.keys_seq().subrange(0, i as int).map_values(|k: Key| types.name_of(k.type_id)),
        decreases p.keys_seq().len() - i,
    {
        let ghost before = names@;
        let n = types.display_name(p.key_at(i).type_id);
        names.push(n);
        proof {
            crate::text::lemma_views_push(before, n);
        }
        i = i + 1;
        proof {
            assert(views(names@) =~= p.keys_seq().subrange(0, i as int).map_values(|k: Key| types.name_of(k.type_id)));
        }
    }
    proof {
        assert(p.keys_seq().subrange(0, i as int) =~= p.keys_seq());
    }
    join_strings(&names, ", ")
}

/// `prefix`, then `middle`, then `)`.
fn wrap(prefix: &str, middle: &str) -> (r: String)
    ensures
        r@ == prefix@ + middle@ + ")"@,
{
    let mut r = concat(prefix, middle);
    push_str(&mut r, ")");
    r
}

impl NodeKey {
    /// The product name of this node, as the visualizer groups nodes.
    pub fn product_str(&self, types: &Types) -> (r: String)
        ensures
            r@ == product_text(*self, *types),
    {
        match self {
            NodeKey::MultiPlatformExecuteProcess(_) => owned("ProcessResult"),
            NodeKey::DownloadedFile(_) => owned("DownloadedFile"),
            NodeKey::Select(s) => types.display_name(s.product),
            NodeKey::Task(t) => types.display_name(t.product),
            NodeKey::Snapshot(_) => owned("Snapshot"),
            NodeKey::DigestFile(_) => owned("DigestFile"),
            NodeKey::ReadLink(_) => owned("LinkDest"),
            NodeKey::Scandir(_) => owned("DirectoryListing"),
        }
    }

    /// The filesystem path this node reads, which is watched while it runs.
    pub fn fs_subject(&self) -> (r: Option<&String>)
        ensures
            match fs_subject_of(*self) {
                Some(p) => r matches Some(s) && s@ == p,
                None => r is None,
            },
    {
        match self {
            NodeKey::DigestFile(d) => Some(&d.0.path),
            NodeKey::ReadLink(l) => Some(&l.0.0),
            NodeKey::Scandir(s) => Some(&s.0.0),
            NodeKey::MultiPlatformExecuteProcess(_) | NodeKey::Select(_) | NodeKey::Snapshot(_)
            | NodeKey::Task(_) | NodeKey::DownloadedFile(_) => None,
        }
    }

    /// The display information of a task node.
    pub fn display_info(&self) -> (r: Option<&DisplayInfo>)
        ensures
            match *self {
                NodeKey::Task(t) => r == Some(&t.task.display_info),
                _ => r is None,
            },
    {
        match self {
            NodeKey::Task(t) => Some(&t.task.display_info),
            _ => None,
        }
    }

    /// Whether the result may be memoized: all nodes but tasks of uncacheable rules.
    pub fn cacheable(&self) -> (r: bool)
        ensures
            match *self {
                NodeKey::Task(t) => r == t.task.cacheable,
                _ => r,
            },
    {
        match self {
            NodeKey::Task(t) => t.task.cacheable,
            _ => true,
        }
    }

    /// The identity text of this node.
    pub fn describe(&self, types: &Types) -> (r: String)
        ensures
            r@ == node_text(*self, *types),
    {
        match self {
            NodeKey::DigestFile(d) => wrap("DigestFile(", d.0.path.as_str()),
            NodeKey::DownloadedFile(d) => {
                let n = decimal_string(d.0.id);
                wrap("DownloadedFile(", n.as_str())
            },
            NodeKey::MultiPlatformExecuteProcess(_) => owned("MultiPlatformExecuteProcess"),
            NodeKey::ReadLink(l) => wrap("ReadLink(", l.0.0.as_str()),
            NodeKey::Scandir(s) => wrap("Scandir(", s.0.0.as_str()),
            NodeKey::Select(s) => {
                let mut r = owned("Select(");
                let ps = describe_params(&s.params, types);
                push_str(&mut r, ps.as_str());
                push_str(&mut r, ", ");
                let n = types.display_name(s.product);
                push_str(&mut r, n.as_str());
                push_str(&mut r, ")");
                r
            },
            NodeKey::Task(t) => {
                let mut r = concat("Task(", t.task.func.name.as_str());
                push_str(&mut r, ", ");
                let ps = describe_params(&t.params, types);
                push_str(&mut r, ps.as_str());
                push_str(&mut r, ", ");
                let n = types.display_name(t.product);
                push_str(&mut r, n.as_str());
                push_str(&mut r, ", ");
                push_str(&mut r, if t.task.cacheable { "true" } else { "false" });
                push_str(&mut r, ")");
                r
            },
            NodeKey::Snapshot(s) => {
                let n = decimal_string(s.0.id);
                wrap("Snapshot(", n.as_str())
            },
        }
    }

    /// The name shown to users for this node's work, if it has one.
    pub fn user_facing_name(&self, types: &Types) -> (r: Option<String>)
        ensures
            match *self {
                NodeKey::Task(t) => crate::args::opt_view(r) == crate::args::opt_view(t.task.display_info.name),
                NodeKey::Snapshot(_) => r matches Some(s) && s@ == node_text(*self, *types),
                NodeKey::MultiPlatformExecuteProcess(m) => if m.0.0@.len() == 0 {
                    r is None
                } else {
                    r matches Some(s) && s@ == m.0.0@[0].1.description@
                },
                _ => r is None,
            },
    {
        match self {
            NodeKey::Task(t) => match &t.task.display_info.name {
                Some(n) => Some(n.clone()),
                None => None,
            },
            NodeKey::Snapshot(_) => Some(self.describe(types)),
            NodeKey::MultiPlatformExecuteProcess(m) => m.user_facing_name(),
            NodeKey::DigestFile(_) | NodeKey::DownloadedFile(_) | NodeKey::ReadLink(_)
            | NodeKey::Scandir(_) | NodeKey::Select(_) => None,
        }
    }

    /// The digest a result carries, if it is a digest.
    pub fn digest(res: &NodeResult) -> (r: Option<Digest>)
        ensures
            match *res {
                NodeResult::Digest(d) => r == Some(d),
                _ => r is None,
            },
    {
        match res {
            NodeResult::Digest(d) => Some(*d),
            _ => None,
        }
    }
}

/// What a workunit reports besides its name.
#[derive(Clone, Debug, PartialEq, Eq)]
pub struct WorkunitMetadata {
    pub desc: Option<String>,
    pub display: bool,
    pub blocked: bool,
}

/// A workunit to start around a node's run.
#[derive(Clone, Debug, PartialEq, Eq)]
pub struct WorkunitStart {
    pub span_id: u64,
    pub name: String,
    pub parent_id: Option<u64>,
    pub metadata: WorkunitMetadata,
}

/// The workunit context of the running task: the span that new workunits nest under.
#[derive(Clone, Copy, Debug, PartialEq, Eq, Structural)]
pub struct WorkunitState {
    pub parent_id: Option<u64>,
}

impl NodeKey {
    /// The workunit to start before running this node under span `span_id`; the node's span
    /// becomes the parent of the work it starts.
    pub fn start_workunit(&self, state: &mut WorkunitState, span_id: u64, handle_workunits: bool, types: &Types) -> (r: WorkunitStart)
        ensures
            r.span_id == span_id,
            r.parent_id == old(state).parent_id,
            final(state).parent_id == Some(span_id),
            r.metadata.blocked == false,
            match *self {
                NodeKey::Task(t) => crate::args::opt_view(r.metadata.desc) == crate::args::opt_view(t.task.display_info.desc),
                _ => r.metadata.desc is None,
            },
            match self.user_facing_name_spec(*types) {
                Some(n) => r.name@ == n && r.metadata.display == handle_workunits,
                None => r.name@ == node_text(*self, *types) && !r.metadata.display,
            },
    {
        let ufn = self.user_facing_name(types);
        let display = handle_workunits && ufn.is_some();
        let name = match ufn {
            Some(n) => n,
            None => self.describe(types),
        };
        let desc = match self.display_info() {
            Some(di) => match &di.desc {
                Some(d) => Some(d.clone()),
                None => None,
            },
            None => None,
        };
        let parent_id = state.parent_id;
        state.parent_id = Some(span_id);
        WorkunitStart { span_id, name, parent_id, metadata: WorkunitMetadata { desc, display, blocked: false } }
    }

    /// The name shown to users for this node's work, if it has one.
    pub open spec fn user_facing_name_spec(&self, types: Types) -> Option<Seq<char>> {
        match *self {
            NodeKey::Task(t) => crate::args::opt_view(t.task.display_info.name),
            NodeKey::Snapshot(_) => Some(node_text(*self, types)),
            NodeKey::MultiPlatformExecuteProcess(m) => if m.0.0@.len() == 0 {
                None
            } else {
                Some(m.0.0@[0].1.description@)
            },
            _ => None,
        }
    }
}

impl NodeResult {
    /// The host value, if this result is one.
    pub fn try_into_value(self) -> (r: Option<Value>)
        ensures
            match self {
                NodeResult::Value(v) => r == Some(v),
                _ => r is None,
            },
    {
        match self {
            NodeResult::Value(v) => Some(v),
            _ => None,
        }
    }

    /// The snapshot, if this result is one.
    pub fn try_into_snapshot(self) -> (r: Option<Arc<StoreSnapshot>>)
        ensures
            match self {
                NodeResult::Snapshot(v) => r == Some(v),
                _ => r is None,
            },
    {
        match self {
            NodeResult::Snapshot(v) => Some(v),
            _ => None,
        }
    }

    /// The digest, if this result is one.
    pub fn try_into_digest(self) -> (r: Option<Digest>)
        ensures
            match self {
                NodeResult::Digest(v) => r == Some(v),
                _ => r is None,
            },
    {
        match self {
            NodeResult::Digest(v) => Some(v),
            _ => None,
        }
    }

    /// The process result, if this result is one.
    pub fn try_into_process_result(self) -> (r: Option<ProcessResult>)
        ensures
            match self {
                NodeResult::ProcessResult(v) => r == Some(v),
                _ => r is None,
            },
    {
        match self {
            NodeResult::ProcessResult(v) => Some(v),
            _ => None,
        }
    }

    /// The link destination, if this result is one.
    pub fn try_into_link_dest(self) -> (r: Option<LinkDest>)
        ensures
            match self {
                NodeResult::LinkDest(v) => r == Some(v),
                _ => r is None,
            },
    {
        match self {
            NodeResult::LinkDest(v) => Some(v),
            _ => None,
        }
    }

    /// The directory listing, if this result is one.
    pub fn try_into_directory_listing(self) -> (r: Option<Arc<DirectoryListing>>)
        ensures
            match self {
                NodeResult::DirectoryListing(v) => r == Some(v),
                _ => r is None,
            },
    {
        match self {
            NodeResult::DirectoryListing(v) => Some(v),
            _ => None,
        }
    }
}

/// Colors for a rendering of the memoization graph.
#[derive(Clone, Debug)]
pub struct Visualizer {
    viz_colors: Vec<(String, String)>,
}

/// The number of colors in the palette.
pub const MAX_COLORS: u64 = 12;

/// The color assigned to `product` in `table`, if any.
pub open spec fn color_of(table: Seq<(String, String)>, product: Seq<char>) -> Option<Seq<char>>
    decreases table.len(),
{
    if table.len() == 0 {
        None
    } else if table[0].0@ == product {
        Some(table[0].1@)
    } else {
        color_of(table.drop_first(), product)
    }
}

/// `c` is one of the palette's colors: the decimal of 1 to 12.
pub open spec fn palette_color(c: Seq<char>) -> bool {
    exists|k: nat| 1 <= k <= 12 && c == #[trigger] decimal(k)
}

impl Default for Visualizer {
    fn default() -> (r: Visualizer)
        ensures
            r.wf(),
            r.table().len() == 0,
    {
        Visualizer::new()
    }
}

impl Visualizer {
    /// The products seen so far, with their colors, in order of first sight.
    pub closed spec fn table(&self) -> Seq<(String, String)> {
        self.viz_colors@
    }

    /// Every color assigned is one of the palette's.
    pub open spec fn wf(&self) -> bool {
        forall|j: int| 0 <= j < self.table().len() ==> palette_color(#[trigger] self.table()[j].1@)
    }

    /// A visualizer that has assigned no colors yet.
    pub fn new() -> (r: Visualizer)
        ensures
            r.wf(),
            r.table().len() == 0,
    {
        Visualizer { viz_colors: Vec::new() }
    }

    /// The palette's name.
    pub fn color_scheme(&self) -> (r: &'static str)
        ensures
            r@ == "set312"@,
    {
        "set312"
    }

    /// The color of a node in the state `peek`: white while unknown, `4` for an error, `12`
    /// for an invalidation, else the color of its product, assigned on first sight.
    pub fn color(&mut self, node: &NodeKey, peek: &Option<Result<NodeResult, Failure>>, types: &Types) -> (r: String)
        requires
            old(self).wf(),
        ensures
            final(self).wf(),
            *peek matches Some(Ok(_)) ==> palette_color(r@),
            match *peek {
                None => r@ == "white"@ && final(self).table() == old(self).table(),
                Some(Err(Failure::Throw { .. })) => r@ == "4"@ && final(self).table() == old(self).table(),
                Some(Err(Failure::Invalidated)) => r@ == "12"@ && final(self).table() == old(self).table(),
                Some(Ok(_)) => match color_of(old(self).table(), product_text(*node, *types)) {
                    Some(c) => r@ == c && final(self).table() == old(self).table(),
                    None => r@ == decimal((old(self).table().len() % 12 + 1) as nat)
                        && final(self).table().len() == old(self).table().len() + 1
                        && final(self).table().drop_last() == old(self).table()
                        && final(self).table().last().0@ == product_text(*node, *types)
                        && final(self).table().last().1@ == r@,
                },
            },
    {
        match peek {
            None => owned("white"),
            Some(Err(Failure::Throw { .. })) => owned("4"),
            Some(Err(Failure::Invalidated)) => owned("12"),
            Some(Ok(_)) => {
                let product = node.product_str(types);
                let n = self.viz_colors.len();
                let mut i: usize = 0;
                proof {
                    assert(self.viz_colors@.subrange(0, n as int) =~= self.viz_colors@);
                }
                while i < n
                    invariant
                        n == self.viz_colors@.len(),
                        self.viz_colors@ == old(self).viz_colors@,
                        *peek matches Some(Ok(_)),
                        product@ == product_text(*node, *types),
                        self.wf(),
                        i <= n,
                        color_of(self.viz_colors@, product@) == color_of(self.viz_colors@.subrange(i as int, n as int), product@),
                    decreases n - i,
                {
                    let ghost rest = self.viz_colors@.subrange(i as int, n as int);
                    if crate::text::same_text(self.viz_colors[i].0.as_str(), product.as_str()) {
                        proof {
                            assert(rest[0] == self.viz_colors@[i as int]);
                            assert(color_of(rest, product@) == Some(self.viz_colors@[i as int].1@));
                            assert(palette_color(self.table()[i as int].1@));
                        }
                        return self.viz_colors[i].1.clone();
                    }
                    proof {
                        assert(rest.drop_first() =~= self.viz_colors@.subrange(i + 1, n as int));
                    }
                    i = i + 1;
                }
                let c = decimal_string((n as u64) % MAX_COLORS + 1);
                self.viz_colors.push((product, c.clone()));
                proof {
                    assert(self.viz_colors@.drop_last() =~= old(self).viz_colors@);
                    let k = ((n as u64) % MAX_COLORS + 1) as nat;
                    assert(1 <= k <= 12 && c@ == decimal(k));
                    assert forall|j: int| 0 <= j < self.table().len() implies palette_color(#[trigger] self.table()[j].1@) by {
                        if j < n {
                            assert(self.table()[j] == old(self).table()[j]);
                        }
                    }
                }
                c
            },
        }
    }
}

/// Renders and classifies node states for traces of the memoization graph.
#[derive(Clone, Copy, Debug, PartialEq, Eq, Structural)]
pub struct Tracer;

/// `s` with every line start after a newline indented by `pad`.
pub open spec fn indent_after_newlines(s: Seq<char>, pad: Seq<char>) -> Seq<char>
    decreases s.len(),
{
    if s.len() == 0 {
        Seq::empty()
    } else if s.last() == '\n' {
        indent_after_newlines(s.drop_last(), pad) + seq!['\n'] + pad
    } else {
        indent_after_newlines(s.drop_last(), pad).push(s.last())
    }
}

/// The rendering of a node result in traces.
pub open spec fn result_text(r: NodeResult) -> Seq<char> {
    match r {
        NodeResult::Digest(_) => "Digest"@,
        NodeResult::DirectoryListing(_) => "DirectoryListing"@,
        NodeResult::LinkDest(_) => "LinkDest"@,
        NodeResult::ProcessResult(_) => "ProcessResult"@,
        NodeResult::Snapshot(_) => "Snapshot"@,
        NodeResult::Value(_) => "Value"@,
    }
}

/// The rendering of a node state in traces.
pub open spec fn state_text(indent: Seq<char>, result: Option<Result<NodeResult, Failure>>) -> Seq<char> {
    let pad = indent + "    "@;
    match result {
        None => "<None>"@,
        Some(Ok(x)) => result_text(x),
        Some(Err(Failure::Throw { message, traceback })) =>
            "Throw("@ + message@ + ")\n"@ + pad + indent_after_newlines(traceback@, pad),
        Some(Err(Failure::Invalidated)) => "Invalidated"@,
    }
}

impl Tracer {
    /// Whether a node in this state ends a trace: every state but an invalidation, which
    /// is worth expanding.
    pub fn is_bottom(result: &Option<Result<NodeResult, Failure>>) -> (r: bool)
        ensures
            r == !(result matches Some(Err(Failure::Invalidated))),
    {
        match result {
            Some(Err(Failure::Invalidated)) => false,
            Some(Err(Failure::Throw { .. })) => true,
            Some(Ok(_)) => true,
            None => true,
        }
    }

    /// The rendering of a node state, with a traceback's lines indented by `indent` and four
    /// spaces.
    pub fn state_str(indent: &str, result: &Option<Result<NodeResult, Failure>>) -> (r: String)
        ensures
            r@ == state_text(indent@, *result),
    {
        match result {
            None => owned("<None>"),
            Some(Ok(x)) => match x {
                NodeResult::Digest(_) => owned("Digest"),
                NodeResult::DirectoryListing(_) => owned("DirectoryListing"),
                NodeResult::LinkDest(_) => owned("LinkDest"),
                NodeResult::ProcessResult(_) => owned("ProcessResult"),
                NodeResult::Snapshot(_) => owned("Snapshot"),
                NodeResult::Value(_) => owned("Value"),
            },
            Some(Err(Failure::Throw { message, traceback })) => {
                let pad = concat(indent, "    ");
                let mut r = concat("Throw(", message.as_str());
                push_str(&mut r, ")\n");
                push_str(&mut r, pad.as_str());
                let ghost head = r@;
                let n = traceback.unicode_len();
                let mut i: usize = 0;
                while i < n
                    invariant
                        n == traceback@.len(),
                        i <= n,
                        r@ == head + indent_after_newlines(traceback@.subrange(0, i as int), pad@),
                    decreases n - i,
                {
                    let c = traceback.get_char(i);
                    proof {
                        assert(traceback@.subrange(0, i + 1).drop_last() =~= traceback@.subrange(0, i as int));
                    }
                    if c == '\n' {
                        push_char(&mut r, '\n');
                        push_str(&mut r, pad.as_str());
                        proof {
                            assert(r@ =~= head + indent_after_newlines(traceback@.subrange(0, i + 1), pad@));
                        }
                    } else {
                        push_char(&mut r, c);
                        proof {
                            assert(r@ =~= head + indent_after_newlines(traceback@.subrange(0, i + 1), pad@));
                        }
                    }
                    i = i + 1;
                }
                proof {
                    assert(traceback@.subrange(0, n as int) =~= traceback@);
                }
                r
            },
            Some(Err(Failure::Invalidated)) => owned("Invalidated"),
        }
    }
}

} // verus!
