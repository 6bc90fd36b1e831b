//! The annotation tree: an ordered sequence of annotation nodes attached to a
//! declaration, and the specification of how a key is resolved inside it.
//!
//! A node is a bare marker, a key/value pair (key = literal), or a list node
//! carrying a path and an ordered sequence of child nodes. Resolution descends
//! through list nodes along a namespace path, validates keys against an
//! optional allow-list, and returns the first matching string value.

use vstd::prelude::*;

verus! {

/// A (possibly module-qualified) identifier path, such as `outer` or
/// `std::option::Option`: its segments, and whether the source wrote leading
/// double colons before them.
#[derive(Debug)]
pub struct MetaPath {
    pub leading_colon: bool,
    pub segments: Vec<String>,
}

impl MetaPath {
    /// The path as a sequence of identifier character sequences.
    pub open spec fn view_segments(self) -> Seq<Seq<char>> {
        self.segments@.map_values(|s: String| s@)
    }

    /// A path names the single plain identifier `name` when it has exactly
    /// one segment equal to `name` and no leading colons.
    pub open spec fn is_ident(self, name: Seq<char>) -> bool {
        !self.leading_colon && self.segments@.len() == 1 && self.segments@[0]@ == name
    }

    /// Whether the last segment of the path equals `name`.
    pub open spec fn last_is(self, name: Seq<char>) -> bool {
        self.segments@.len() > 0 && self.segments@[self.segments@.len() - 1]@ == name
    }
}

/// A literal value carried by a key/value node. Only string literals
/// participate in resolution; every other literal kind is kept opaque.
#[derive(Debug)]
pub enum Lit {
    Str(String),
    Other,
}

/// One annotation node.
#[derive(Debug)]
pub enum MetaNode {
    /// A bare marker, such as `ignore`.
    Marker(MetaPath),
    /// A key/value pair, such as `name = "uuid"`.
    KeyValue(MetaPath, Lit),
    /// A list node carrying nested children, such as `outer(inner(...))`.
    List(MetaPath, Vec<NestedMeta>),
}

/// One element inside a list node: either a nested node or a bare literal.
#[derive(Debug)]
pub enum NestedMeta {
    Node(MetaNode),
    Lit(Lit),
}

/// A failure during normalization or resolution.
#[derive(Debug)]
pub enum HelperError {
    /// An annotation's text does not conform to the annotation grammar; the
    /// parser's own error is kept as the payload.
    Syntax(syn::Error),
    /// A key/value node's key is not on the allow-list; carries the offending
    /// key path and the full allow-list.
    Disallowed(MetaPath, Vec<String>),
}

/// The views of a sequence of identifier strings.
pub open spec fn view_of_names(names: Seq<String>) -> Seq<Seq<char>> {
    names.map_values(|s: String| s@)
}

/// The views of an optional allow-list; `None` means no validation.
pub open spec fn opt_names_view(o: Option<Vec<String>>) -> Option<Seq<Seq<char>>> {
    match o {
        Option::Some(v) => Option::Some(view_of_names(v@)),
        Option::None => Option::None,
    }
}

/// The views of an optional namespace path; an absent path is an empty one.
pub open spec fn opt_ns_view(o: Option<Vec<String>>) -> Seq<Seq<char>> {
    match o {
        Option::Some(v) => view_of_names(v@),
        Option::None => Seq::empty(),
    }
}

/// The key path of a node, for error reporting.
pub open spec fn meta_key(m: MetaNode) -> Seq<Seq<char>> {
    match m {
        MetaNode::Marker(p) => p.view_segments(),
        MetaNode::KeyValue(p, _l) => p.view_segments(),
        MetaNode::List(p, _c) => p.view_segments(),
    }
}

/// Whether the path, as a plain identifier, is one of the listed names.
pub open spec fn ident_on_list(p: MetaPath, names: Seq<Seq<char>>) -> bool {
    exists|i: int| 0 <= i < names.len() && p.is_ident(#[trigger] names[i])
}

/// Whether a node passes allow-list validation: only key/value nodes are
/// checked, and a key passes when some allowed name equals it as an identifier.
pub open spec fn meta_allowed(m: MetaNode, allow: Option<Seq<Seq<char>>>) -> bool {
    match m {
        MetaNode::KeyValue(p, _l) => match allow {
            Option::Some(names) => ident_on_list(p, names),
            Option::None => true,
        },
        _ => true,
    }
}

/// The value a node contributes for `name`: the literal string, when the node
/// is a key/value pair whose key is exactly `name` and whose value is a
/// string literal.
pub open spec fn meta_value_for(m: MetaNode, name: Seq<char>) -> Option<Seq<char>> {
    match m {
        MetaNode::KeyValue(p, l) => match l {
            Lit::Str(s) => if p.is_ident(name) {
                Option::Some(s@)
            } else {
                Option::None
            },
            Lit::Other => Option::None,
        },
        _ => Option::None,
    }
}

/// Allow-list validation lifted to nested nodes; bare literals always pass.
pub open spec fn nested_allowed(n: NestedMeta, allow: Option<Seq<Seq<char>>>) -> bool {
    match n {
        NestedMeta::Node(m) => meta_allowed(m, allow),
        NestedMeta::Lit(_l) => true,
    }
}

/// The value a nested node contributes for `name`; bare literals contribute
/// nothing.
pub open spec fn nested_value_for(n: NestedMeta, name: Seq<char>) -> Option<Seq<char>> {
    match n {
        NestedMeta::Node(m) => meta_value_for(m, name),
        NestedMeta::Lit(_l) => Option::None,
    }
}

/// The key path of a nested node, for error reporting.
pub open spec fn nested_key(n: NestedMeta) -> Seq<Seq<char>> {
    match n {
        NestedMeta::Node(m) => meta_key(m),
        NestedMeta::Lit(_l) => Seq::empty(),
    }
}

/// The candidate groups reached by descending the namespace path `ns` from a
/// sequence of nested nodes, in encounter order. An empty path addresses the
/// nodes themselves as a single group; otherwise every list node whose path
/// ends in the first namespace segment is descended with the remaining
/// segments, and the groups it yields are gathered in order.
pub open spec fn nested_groups(nodes: Seq<NestedMeta>, ns: Seq<Seq<char>>) -> Seq<Seq<NestedMeta>>
    decreases ns.len(), nodes.len(),
{
    if ns.len() == 0 {
        seq![nodes]
    } else if nodes.len() == 0 {
        Seq::empty()
    } else {
        (match nodes[0] {
            NestedMeta::Node(m) => match m {
                MetaNode::List(p, children) => if p.last_is(ns[0]) {
                    nested_groups(children@, ns.drop_first())
                } else {
                    Seq::empty()
                },
                _ => Seq::empty(),
            },
            _ => Seq::empty(),
        }) + nested_groups(nodes.drop_first(), ns)
    }
}

/// The groups a single nested node yields for a non-empty namespace path: a
/// list node whose path ends in the first segment is descended with the
/// remaining segments; every other node yields no group.
pub open spec fn node_groups(n: NestedMeta, ns: Seq<Seq<char>>) -> Seq<Seq<NestedMeta>> {
    match n {
        NestedMeta::Node(m) => match m {
            MetaNode::List(p, children) => if p.last_is(ns[0]) {
                nested_groups(children@, ns.drop_first())
            } else {
                Seq::empty()
            },
            _ => Seq::empty(),
        },
        _ => Seq::empty(),
    }
}

/// Top-level nodes wrapped as nested nodes, so that top-level descent is the
/// same walk as nested descent.
pub open spec fn as_nested(metas: Seq<MetaNode>) -> Seq<NestedMeta> {
    metas.map_values(|m: MetaNode| NestedMeta::Node(m))
}

/// The candidate groups reached from top-level nodes. Descent only happens
/// for a non-empty namespace path; with an empty path there are no groups.
pub open spec fn meta_groups(metas: Seq<MetaNode>, ns: Seq<Seq<char>>) -> Seq<Seq<NestedMeta>> {
    if ns.len() == 0 {
        Seq::empty()
    } else {
        nested_groups(as_nested(metas), ns)
    }
}

/// The outcome of one resolution attempt.
pub enum Outcome {
    /// The first matching value, as characters.
    Found(Seq<char>),
    /// No error, but no node carried the key.
    Missing,
    /// Validation rejected a key; the payload is the offending key path.
    Rejected(Seq<Seq<char>>),
}

/// Direct (empty-namespace) resolution over top-level nodes: each node is
/// validated and then tested in turn, and the first match wins.
pub open spec fn scan_metas(metas: Seq<MetaNode>, name: Seq<char>, allow: Option<Seq<Seq<char>>>) -> Outcome
    decreases metas.len(),
{
    if metas.len() == 0 {
        Outcome::Missing
    } else if !meta_allowed(metas[0], allow) {
        Outcome::Rejected(meta_key(metas[0]))
    } else if meta_value_for(metas[0], name) is Some {
        Outcome::Found(meta_value_for(metas[0], name)->Some_0)
    } else {
        scan_metas(metas.drop_first(), name, allow)
    }
}

/// Whether every node of one candidate group passes allow-list validation.
pub open spec fn group_all_allowed(g: Seq<NestedMeta>, allow: Option<Seq<Seq<char>>>) -> bool {
    forall|i: int| 0 <= i < g.len() ==> nested_allowed(g[i], allow)
}

/// The key path of the first node of the group that validation rejects.
pub open spec fn group_first_rejected(g: Seq<NestedMeta>, allow: Option<Seq<Seq<char>>>) -> Seq<Seq<char>>
    decreases g.len(),
{
    if g.len() == 0 {
        Seq::empty()
    } else if !nested_allowed(g[0], allow) {
        nested_key(g[0])
    } else {
        group_first_rejected(g.drop_first(), allow)
    }
}

/// The first value for `name` among the nodes of one candidate group.
pub open spec fn group_value_for(g: Seq<NestedMeta>, name: Seq<char>) -> Option<Seq<char>>
    decreases g.len(),
{
    if g.len() == 0 {
        Option::None
    } else if nested_value_for(g[0], name) is Some {
        nested_value_for(g[0], name)
    } else {
        group_value_for(g.drop_first(), name)
    }
}

/// Group resolution: the candidate groups are tried in encounter order; each
/// group is first validated whole, then searched, and the first group that
/// yields a value decides. A validation failure in a group aborts the whole
/// resolution, even when a later group would have matched.
pub open spec fn resolve_groups(gs: Seq<Seq<NestedMeta>>, name: Seq<char>, allow: Option<Seq<Seq<char>>>) -> Outcome
    decreases gs.len(),
{
    if gs.len() == 0 {
        Outcome::Missing
    } else if !group_all_allowed(gs[0], allow) {
        Outcome::Rejected(group_first_rejected(gs[0], allow))
    } else if group_value_for(gs[0], name) is Some {
        Outcome::Found(group_value_for(gs[0], name)->Some_0)
    } else {
        resolve_groups(gs.drop_first(), name, allow)
    }
}

/// Resolution from top-level nodes: an absent namespace path is an empty one;
/// an empty path scans the nodes directly, and a non-empty one descends to
/// candidate groups and resolves over them.
pub open spec fn meta_resolution(metas: Seq<MetaNode>, name: Seq<char>, ns: Seq<Seq<char>>, allow: Option<Seq<Seq<char>>>) -> Outcome {
    if ns.len() == 0 {
        scan_metas(metas, name, allow)
    } else {
        resolve_groups(meta_groups(metas, ns), name, allow)
    }
}

/// Resolution from nested nodes: descends (an empty path addresses the input
/// as one group) and resolves over the candidate groups.
pub open spec fn nested_resolution(nodes: Seq<NestedMeta>, name: Seq<char>, ns: Seq<Seq<char>>, allow: Option<Seq<Seq<char>>>) -> Outcome {
    resolve_groups(nested_groups(nodes, ns), name, allow)
}

/// How an executable resolution result reflects a specified outcome: a found
/// value is returned as `Ok(Some(..))`, a missing key as `Ok(None)`, and a
/// rejected key as the disallowed-key error carrying that key and the full
/// allow-list.
pub open spec fn resolution_matches(out: Outcome, r: Result<Option<String>, HelperError>, allow: Option<Seq<Seq<char>>>) -> bool {
    match out {
        Outcome::Found(v) => r matches Result::Ok(o) && o matches Option::Some(s) && s@ == v,
        Outcome::Missing => r matches Result::Ok(o) && o is None,
        Outcome::Rejected(k) => r matches Result::Err(e) && (e matches HelperError::Disallowed(p, l)
            && p.view_segments() == k && allow == Option::Some(view_of_names(l@))),
    }
}

} // verus!
