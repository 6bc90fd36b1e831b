//! Laws of the library, each stated over the resolution and extraction
//! specifications and proved for all inputs they mention.

use vstd::prelude::*;
use crate::meta::{
    Lit, MetaNode, MetaPath, NestedMeta, Outcome, group_all_allowed, group_first_rejected,
    group_value_for, meta_groups, meta_resolution, meta_value_for, nested_groups, node_groups,
    resolve_groups, scan_metas,
};
use crate::ty::{GenericArg, Ty, TyArgs, TySegment, spec_inner_type};

verus! {

/// Extracting the inner type of a wrapper `W<T>` by the name `W` (the
/// identifier of the last path segment) yields the single type argument `T`.
pub proof fn lemma_inner_type_of_wrapper(
    segments: Vec<TySegment>,
    args: Vec<GenericArg>,
    inner: Ty,
    name: Seq<char>,
)
    requires
        segments@.len() > 0,
        segments@[segments@.len() - 1].ident@ == name,
        segments@[segments@.len() - 1].args == TyArgs::AngleBracketed(args),
        args@.len() == 1,
        args@[0] == GenericArg::Type(inner),
    ensures
        spec_inner_type(Ty::Path(segments), name) == Option::Some(inner),
{
}

/// A wrapper that carries any number of angle-bracketed arguments other than
/// exactly one yields nothing, whether or not its name matches.
pub proof fn lemma_inner_type_not_single_argument(
    segments: Vec<TySegment>,
    args: Vec<GenericArg>,
    name: Seq<char>,
)
    requires
        segments@.len() > 0,
        segments@[segments@.len() - 1].args == TyArgs::AngleBracketed(args),
        args@.len() != 1,
    ensures
        spec_inner_type(Ty::Path(segments), name) is None,
{
}

/// Extracting with a wrapper name that differs from the last path segment's
/// identifier yields nothing, whatever the arguments are.
pub proof fn lemma_inner_type_wrong_wrapper(segments: Vec<TySegment>, name: Seq<char>)
    requires
        segments@.len() > 0 ==> segments@[segments@.len() - 1].ident@ != name,
    ensures
        spec_inner_type(Ty::Path(segments), name) is None,
{
}

/// Extracting from a bare (non-generic) path type yields nothing, for every
/// wrapper name; so does extracting from a non-path type.
pub proof fn lemma_inner_type_of_bare(segments: Vec<TySegment>, name: Seq<char>)
    requires
        segments@.len() > 0 ==> segments@[segments@.len() - 1].args is Empty,
    ensures
        spec_inner_type(Ty::Path(segments), name) is None,
        spec_inner_type(Ty::Other, name) is None,
{
}

/// A sole top-level annotation `key = "value"` resolves `key` (no namespace)
/// to `value`, and resolves every other key to nothing, under any allow-list
/// that admits the node.
pub proof fn lemma_top_level_key_value(
    key: MetaPath,
    value: String,
    name: Seq<char>,
    other: Seq<char>,
    allow: Option<Seq<Seq<char>>>,
)
    requires
        key.is_ident(name),
        other != name,
        crate::meta::meta_allowed(MetaNode::KeyValue(key, Lit::Str(value)), allow),
    ensures
        scan_metas(seq![MetaNode::KeyValue(key, Lit::Str(value))], name, allow) == Outcome::Found(
            value@,
        ),
        scan_metas(seq![MetaNode::KeyValue(key, Lit::Str(value))], other, allow)
            == Outcome::Missing,
{
    let node = MetaNode::KeyValue(key, Lit::Str(value));
    let s = seq![node];
    assert(meta_value_for(node, name) == Option::Some(value@));
    assert(meta_value_for(node, other) is None);
    assert(s.drop_first() =~= Seq::<MetaNode>::empty());
    assert(scan_metas(s.drop_first(), other, allow) == Outcome::Missing);
}

/// Descent over no nodes yields no groups.
proof fn lemma_groups_of_none(ns: Seq<Seq<char>>)
    requires
        ns.len() > 0,
    ensures
        nested_groups(Seq::<NestedMeta>::empty(), ns) == Seq::<Seq<NestedMeta>>::empty(),
{
}

/// Descent over a single node yields exactly that node's groups.
proof fn lemma_groups_of_single(x: NestedMeta, ns: Seq<Seq<char>>)
    requires
        ns.len() > 0,
    ensures
        nested_groups(seq![x], ns) == node_groups(x, ns),
{
    assert(seq![x].drop_first() =~= Seq::<NestedMeta>::empty());
    lemma_groups_of_none(ns);
    assert(node_groups(x, ns) + Seq::<Seq<NestedMeta>>::empty() =~= node_groups(x, ns));
}

/// For the nested annotation `outer(inner(key = "value"))`, resolving `key`
/// under the namespace path `[outer, inner]` yields `value`, while resolving
/// under `[outer]` alone yields nothing: the key sits one level too deep.
pub proof fn lemma_nested_namespace_depth(
    outer_path: MetaPath,
    inner_path: MetaPath,
    key: MetaPath,
    value: String,
    outer: Seq<char>,
    inner: Seq<char>,
    name: Seq<char>,
    inner_children: Vec<NestedMeta>,
    outer_children: Vec<NestedMeta>,
)
    requires
        outer_path.last_is(outer),
        inner_path.last_is(inner),
        !inner_path.is_ident(name),
        key.is_ident(name),
        inner_children@ == seq![NestedMeta::Node(MetaNode::KeyValue(key, Lit::Str(value)))],
        outer_children@ == seq![NestedMeta::Node(MetaNode::List(inner_path, inner_children))],
    ensures
        meta_resolution(
            seq![MetaNode::List(outer_path, outer_children)],
            name,
            seq![outer, inner],
            Option::None,
        ) == Outcome::Found(value@),
        meta_resolution(
            seq![MetaNode::List(outer_path, outer_children)],
            name,
            seq![outer],
            Option::None,
        ) == Outcome::Missing,
{
    let inner_list = MetaNode::List(inner_path, inner_children);
    let outer_list = MetaNode::List(outer_path, outer_children);
    let metas = seq![outer_list];

    // groups under [outer, inner]: descend the outer list, then the inner one
    let ns2: Seq<Seq<char>> = seq![outer, inner];
    let w = crate::meta::as_nested(metas);
    assert(w =~= seq![NestedMeta::Node(outer_list)]);
    assert(w.drop_first() =~= Seq::<NestedMeta>::empty());
    assert(ns2.drop_first() =~= seq![inner]);
    assert(outer_children@.drop_first() =~= Seq::<NestedMeta>::empty());
    assert(seq![inner].drop_first() =~= Seq::<Seq<char>>::empty());
    assert(inner_children@.drop_first() =~= Seq::<NestedMeta>::empty());
    assert(nested_groups(inner_children@, Seq::<Seq<char>>::empty()) == seq![inner_children@]);
    lemma_groups_of_single(NestedMeta::Node(inner_list), seq![inner]);
    assert(node_groups(NestedMeta::Node(inner_list), seq![inner]) == seq![inner_children@]);
    assert(nested_groups(outer_children@, seq![inner]) =~= seq![inner_children@]);
    lemma_groups_of_single(NestedMeta::Node(outer_list), ns2);
    assert(node_groups(NestedMeta::Node(outer_list), ns2) == nested_groups(
        outer_children@,
        ns2.drop_first(),
    ));
    assert(nested_groups(w, ns2) =~= seq![inner_children@]);
    assert(meta_groups(metas, ns2) == seq![inner_children@]);

    // the single group holds the key/value node, so resolution finds it
    let gs2 = seq![inner_children@];
    assert(group_all_allowed(inner_children@, Option::None));
    assert(crate::meta::nested_value_for(inner_children@[0], name) == Option::Some(value@));
    assert(group_value_for(inner_children@, name) == Option::Some(value@));
    assert(resolve_groups(gs2, name, Option::None) == Outcome::Found(value@));

    // groups under [outer] alone: the outer list's children, one level short
    let ns1: Seq<Seq<char>> = seq![outer];
    assert(ns1.drop_first() =~= Seq::<Seq<char>>::empty());
    assert(nested_groups(outer_children@, Seq::<Seq<char>>::empty()) == seq![outer_children@]);
    lemma_groups_of_single(NestedMeta::Node(outer_list), ns1);
    assert(node_groups(NestedMeta::Node(outer_list), ns1) == nested_groups(
        outer_children@,
        ns1.drop_first(),
    ));
    assert(nested_groups(w, ns1) =~= seq![outer_children@]);
    assert(meta_groups(metas, ns1) == seq![outer_children@]);

    // that group holds only the inner list node, which is no key/value match
    let gs1 = seq![outer_children@];
    assert(group_all_allowed(outer_children@, Option::None));
    assert(crate::meta::nested_value_for(outer_children@[0], name) is None);
    assert(group_value_for(outer_children@.drop_first(), name) is None);
    assert(group_value_for(outer_children@, name) is None);
    assert(gs1.drop_first() =~= Seq::<Seq<NestedMeta>>::empty());
    assert(resolve_groups(Seq::<Seq<NestedMeta>>::empty(), name, Option::None)
        == Outcome::Missing);
    assert(resolve_groups(gs1, name, Option::None) == Outcome::Missing);
}

/// Two sibling list nodes whose paths end in the same namespace segment yield
/// their child groups in source order.
pub proof fn lemma_sibling_groups_in_order(
    first_path: MetaPath,
    second_path: MetaPath,
    first_children: Vec<NestedMeta>,
    second_children: Vec<NestedMeta>,
    ns: Seq<char>,
)
    requires
        first_path.last_is(ns),
        second_path.last_is(ns),
    ensures
        meta_groups(
            seq![
                MetaNode::List(first_path, first_children),
                MetaNode::List(second_path, second_children),
            ],
            seq![ns],
        ) == seq![first_children@, second_children@],
{
    let m1 = MetaNode::List(first_path, first_children);
    let m2 = MetaNode::List(second_path, second_children);
    let metas = seq![m1, m2];
    let nss: Seq<Seq<char>> = seq![ns];
    let w = crate::meta::as_nested(metas);
    assert(w =~= seq![NestedMeta::Node(m1), NestedMeta::Node(m2)]);
    assert(nss.drop_first() =~= Seq::<Seq<char>>::empty());
    assert(nested_groups(first_children@, Seq::<Seq<char>>::empty()) == seq![first_children@]);
    assert(nested_groups(second_children@, Seq::<Seq<char>>::empty()) == seq![second_children@]);
    assert(w.drop_first() =~= seq![NestedMeta::Node(m2)]);
    lemma_groups_of_single(NestedMeta::Node(m2), nss);
    assert(node_groups(NestedMeta::Node(m2), nss) == seq![second_children@]);
    assert(nested_groups(w.drop_first(), nss) =~= seq![second_children@]);
    assert(node_groups(NestedMeta::Node(m1), nss) == seq![first_children@]);
    assert(nested_groups(w, nss) =~= seq![first_children@, second_children@]);
    assert(meta_groups(metas, nss) == seq![first_children@, second_children@]);
}

/// Among candidate groups, the first (in encounter order) that passes
/// validation and carries the key decides the resolution, whatever every
/// later group holds.
pub proof fn lemma_first_group_wins(
    g: Seq<NestedMeta>,
    rest: Seq<Seq<NestedMeta>>,
    name: Seq<char>,
    allow: Option<Seq<Seq<char>>>,
    v: Seq<char>,
)
    requires
        group_all_allowed(g, allow),
        group_value_for(g, name) == Option::Some(v),
    ensures
        resolve_groups(seq![g] + rest, name, allow) == Outcome::Found(v),
{
    let gs = seq![g] + rest;
    assert(gs[0] == g);
}

/// Of two sibling list nodes sharing a namespace, the first one (in source
/// order) whose children carry the target key decides the resolution,
/// whatever the second sibling holds.
pub proof fn lemma_first_sibling_wins(
    first_path: MetaPath,
    second_path: MetaPath,
    first_children: Vec<NestedMeta>,
    second_children: Vec<NestedMeta>,
    ns: Seq<char>,
    name: Seq<char>,
    allow: Option<Seq<Seq<char>>>,
    v: Seq<char>,
)
    requires
        first_path.last_is(ns),
        second_path.last_is(ns),
        group_all_allowed(first_children@, allow),
        group_value_for(first_children@, name) == Option::Some(v),
    ensures
        meta_resolution(
            seq![
                MetaNode::List(first_path, first_children),
                MetaNode::List(second_path, second_children),
            ],
            name,
            seq![ns],
            allow,
        ) == Outcome::Found(v),
{
    lemma_sibling_groups_in_order(first_path, second_path, first_children, second_children, ns);
    lemma_first_group_wins(first_children@, seq![second_children@], name, allow, v);
    assert(seq![first_children@] + seq![second_children@] =~= seq![
        first_children@,
        second_children@,
    ]);
}

/// A disallowed key in the first searched group rejects the whole resolution,
/// even when a later group would have carried the key.
pub proof fn lemma_rejection_precedes_later_groups(
    g: Seq<NestedMeta>,
    rest: Seq<Seq<NestedMeta>>,
    name: Seq<char>,
    allow: Option<Seq<Seq<char>>>,
)
    requires
        !group_all_allowed(g, allow),
    ensures
        resolve_groups(seq![g] + rest, name, allow) == Outcome::Rejected(
            group_first_rejected(g, allow),
        ),
{
    let gs = seq![g] + rest;
    assert(gs[0] == g);
}

/// Resolving a key that no candidate group of an allow-list-valid tree
/// carries yields nothing, never an error.
pub proof fn lemma_absent_key_is_missing(
    gs: Seq<Seq<NestedMeta>>,
    name: Seq<char>,
    allow: Option<Seq<Seq<char>>>,
)
    requires
        forall|i: int| 0 <= i < gs.len() ==> group_all_allowed(#[trigger] gs[i], allow),
        forall|i: int| 0 <= i < gs.len() ==> group_value_for(#[trigger] gs[i], name) is None,
    ensures
        resolve_groups(gs, name, allow) == Outcome::Missing,
    decreases gs.len(),
{
    if gs.len() > 0 {
        assert(group_all_allowed(gs[0], allow));
        assert(group_value_for(gs[0], name) is None);
        lemma_absent_key_is_missing(gs.drop_first(), name, allow);
    }
}

/// The same, for a direct scan of top-level nodes: when every node passes
/// validation and none carries the key, the scan yields nothing.
pub proof fn lemma_absent_key_scan_is_missing(
    metas: Seq<MetaNode>,
    name: Seq<char>,
    allow: Option<Seq<Seq<char>>>,
)
    requires
        forall|i: int| 0 <= i < metas.len() ==> crate::meta::meta_allowed(
            #[trigger] metas[i],
            allow,
        ),
        forall|i: int| 0 <= i < metas.len() ==> meta_value_for(#[trigger] metas[i], name) is None,
    ensures
        scan_metas(metas, name, allow) == Outcome::Missing,
    decreases metas.len(),
{
    if metas.len() > 0 {
        assert(crate::meta::meta_allowed(metas[0], allow));
        assert(meta_value_for(metas[0], name) is None);
        lemma_absent_key_scan_is_missing(metas.drop_first(), name, allow);
    }
}

} // verus!

