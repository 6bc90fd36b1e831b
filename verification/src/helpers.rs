//! The executable resolution functions: namespace descent over the annotation
//! tree, allow-list validation, and first-match value lookup, each proved
//! against the specification in `meta`.

use vstd::prelude::*;
use crate::meta::{
    HelperError, Lit, MetaNode, MetaPath, NestedMeta, Outcome, group_all_allowed,
    group_first_rejected, group_value_for, meta_allowed, meta_groups, meta_key, meta_resolution,
    meta_value_for, nested_allowed, nested_groups, nested_key, nested_resolution,
    nested_value_for, node_groups, as_nested, opt_names_view, opt_ns_view, resolution_matches,
    resolve_groups, scan_metas, view_of_names,
};

verus! {

/// The nodes a sequence of borrowed nested nodes stands for.
pub open spec fn deref_nested(s: Seq<&NestedMeta>) -> Seq<NestedMeta> {
    s.map_values(|n: &NestedMeta| *n)
}

/// The nodes a sequence of borrowed top-level nodes stands for.
pub open spec fn deref_metas(s: Seq<&MetaNode>) -> Seq<MetaNode> {
    s.map_values(|m: &MetaNode| *m)
}

/// The candidate groups a vector of borrowed-node vectors stands for.
pub open spec fn deref_groups(gs: Seq<Vec<&NestedMeta>>) -> Seq<Seq<NestedMeta>> {
    gs.map_values(|g: Vec<&NestedMeta>| deref_nested(g@))
}

/// Whether the path names exactly the single identifier `name`.
fn path_eq_ident(p: &MetaPath, name: &String) -> (b: bool)
    ensures
        b == p.is_ident(name@),
{
    if !p.leading_colon && p.segments.len() == 1 {
        p.segments[0] == *name
    } else {
        false
    }
}

/// Whether the path's last segment equals `name`.
fn path_last_eq(p: &MetaPath, name: &String) -> (b: bool)
    ensures
        b == p.last_is(name@),
{
    let n = p.segments.len();
    if n > 0 {
        p.segments[n - 1] == *name
    } else {
        false
    }
}

/// A copy of a list of identifier strings.
fn clone_names(v: &Vec<String>) -> (r: Vec<String>)
    ensures
        r@ == v@,
{
    let mut r: Vec<String> = Vec::new();
    let mut i: usize = 0;
    while i < v.len()
        invariant
            i <= v@.len(),
            r@ == v@.take(i as int),
        decreases v@.len() - i,
    {
        r.push(v[i].clone());
        proof {
            assert(v@.take(i + 1) =~= v@.take(i as int).push(v@[i as int]));
        }
        i = i + 1;
    }
    proof {
        assert(v@.take(v@.len() as int) =~= v@);
    }
    r
}

/// Whether `p`, as a plain identifier, is one of the listed names.
fn name_on_list(p: &MetaPath, names: &Vec<String>) -> (b: bool)
    ensures
        b == (exists|j: int| 0 <= j < names@.len() && p.is_ident(#[trigger] names@[j]@)),
{
    let mut i: usize = 0;
    let mut found = false;
    while i < names.len()
        invariant
            i <= names@.len(),
            found == (exists|j: int| 0 <= j < i && p.is_ident(#[trigger] names@[j]@)),
        decreases names@.len() - i,
    {
        if path_eq_ident(p, &names[i]) {
            found = true;
            proof {
                assert(p.is_ident(names@[i as int]@));
            }
        }
        i = i + 1;
    }
    found
}

/// Whether the node passes validation against the optional allow-list.
fn meta_allowed_exec(m: &MetaNode, allow: &Option<Vec<String>>) -> (b: bool)
    ensures
        b == meta_allowed(*m, opt_names_view(*allow)),
{
    match m {
        MetaNode::KeyValue(p, l) => match allow {
            Option::Some(names) => {
                let on = name_on_list(p, names);
                proof {
                    assert(*m == MetaNode::KeyValue(*p, *l));
                    assert(opt_names_view(*allow) == Option::Some(view_of_names(names@)));
                    let nv = view_of_names(names@);
                    assert(nv.len() == names@.len());
                    if on {
                        let j = choose|j: int| 0 <= j < names@.len() && p.is_ident(
                            #[trigger] names@[j]@,
                        );
                        assert(nv[j] == names@[j]@);
                        assert(p.is_ident(nv[j]));
                        assert(crate::meta::ident_on_list(*p, nv));
                    } else {
                        assert forall|j: int| 0 <= j < nv.len() implies !p.is_ident(
                            #[trigger] nv[j],
                        ) by {
                            assert(nv[j] == names@[j]@);
                        }
                        assert(!crate::meta::ident_on_list(*p, nv));
                    }
                }
                on
            },
            Option::None => true,
        },
        _ => true,
    }
}

/// Validates one node against the optional allow-list: a key/value node whose
/// key names no allowed identifier is rejected with an error carrying the
/// offending key path and the full allow-list.
fn check_meta_available(meta: &MetaNode, allow_attrs: &Option<Vec<String>>) -> (r: Result<
    bool,
    HelperError,
>)
    ensures
        r is Ok <==> meta_allowed(*meta, opt_names_view(*allow_attrs)),
        r is Ok ==> r->Ok_0 == true,
        r is Err ==> (r->Err_0 matches HelperError::Disallowed(p, l) && p.view_segments()
            == meta_key(*meta) && opt_names_view(*allow_attrs) == Option::Some(
            view_of_names(l@),
        )),
{
    if meta_allowed_exec(meta, allow_attrs) {
        Result::Ok(true)
    } else {
        match meta {
            MetaNode::KeyValue(p, _l) => match allow_attrs {
                Option::Some(names) => {
                    let key = MetaPath {
                        leading_colon: p.leading_colon,
                        segments: clone_names(&p.segments),
                    };
                    proof {
                        assert(key.view_segments() == p.view_segments());
                    }
                    Result::Err(HelperError::Disallowed(key, clone_names(names)))
                },
                Option::None => vstd::pervasive::unreached(),
            },
            _ => vstd::pervasive::unreached(),
        }
    }
}

/// The value one node contributes for `attr_name`: the string of a key/value
/// node whose key is exactly `attr_name` and whose value is a string literal.
fn get_macro_attr_value_from_meta(meta: &MetaNode, attr_name: &String) -> (r: Result<
    Option<String>,
    HelperError,
>)
    ensures
        r is Ok,
        (r->Ok_0 is Some) == (meta_value_for(*meta, attr_name@) is Some),
        r->Ok_0 is Some ==> r->Ok_0->Some_0@ == meta_value_for(*meta, attr_name@)->Some_0,
{
    match meta {
        MetaNode::KeyValue(p, l) => match l {
            Lit::Str(s) => {
                if path_eq_ident(p, attr_name) {
                    Result::Ok(Option::Some(s.clone()))
                } else {
                    Result::Ok(Option::None)
                }
            },
            Lit::Other => Result::Ok(Option::None),
        },
        _ => Result::Ok(Option::None),
    }
}

/// Descent distributes over concatenation of sibling nodes.
proof fn lemma_nested_groups_concat(a: Seq<NestedMeta>, b: Seq<NestedMeta>, ns: Seq<Seq<char>>)
    requires
        ns.len() > 0,
    ensures
        nested_groups(a + b, ns) == nested_groups(a, ns) + nested_groups(b, ns),
    decreases a.len(),
{
    if a.len() == 0 {
        assert(a + b =~= b);
        assert(nested_groups(a, ns) + nested_groups(b, ns) =~= nested_groups(b, ns));
    } else {
        lemma_nested_groups_concat(a.drop_first(), b, ns);
        assert((a + b).len() > 0);
        assert((a + b)[0] == a[0]);
        assert((a + b).drop_first() =~= a.drop_first() + b);
        let h = node_groups(a[0], ns);
        assert(nested_groups(a + b, ns) == h + nested_groups(a.drop_first() + b, ns));
        assert(nested_groups(a, ns) == h + nested_groups(a.drop_first(), ns));
        assert(h + (nested_groups(a.drop_first(), ns) + nested_groups(b, ns)) =~= (h
            + nested_groups(a.drop_first(), ns)) + nested_groups(b, ns));
    }
}

/// One step of descent: the head node's groups followed by the tail's groups.
proof fn lemma_nested_groups_step(nodes: Seq<NestedMeta>, i: int, ns: Seq<Seq<char>>)
    requires
        ns.len() > 0,
        0 <= i < nodes.len(),
    ensures
        nested_groups(nodes.take(i + 1), ns) == nested_groups(nodes.take(i), ns) + node_groups(
            nodes[i],
            ns,
        ),
{
    assert(nodes.take(i + 1) =~= nodes.take(i) + seq![nodes[i]]);
    lemma_nested_groups_concat(nodes.take(i), seq![nodes[i]], ns);
    let s = seq![nodes[i]];
    assert(s.drop_first() =~= Seq::<NestedMeta>::empty());
    assert(nested_groups(s.drop_first(), ns) =~= Seq::<Seq<NestedMeta>>::empty());
    assert(nested_groups(s, ns) == node_groups(nodes[i], ns) + nested_groups(s.drop_first(), ns));
    assert(node_groups(nodes[i], ns) + Seq::<Seq<NestedMeta>>::empty() =~= node_groups(
        nodes[i],
        ns,
    ));
}

/// Borrows of each child of a list node, in order.
fn child_refs<'a>(children: &'a Vec<NestedMeta>) -> (r: Vec<&'a NestedMeta>)
    ensures
        deref_nested(r@) == children@,
{
    let mut r: Vec<&'a NestedMeta> = Vec::new();
    let mut i: usize = 0;
    while i < children.len()
        invariant
            i <= children@.len(),
            r@.len() == i,
            deref_nested(r@) == children@.take(i as int),
        decreases children@.len() - i,
    {
        let c: &'a NestedMeta = &children[i];
        proof {
            assert(*c == children@[i as int]);
        }
        let ghost r_old = r@;
        r.push(c);
        proof {
            assert(r@ == r_old.push(c));
            assert forall|k: int| 0 <= k < r@.len() implies deref_nested(r@)[k] == children@.take(
                i + 1,
            )[k] by {
                assert(deref_nested(r@)[k] == *(r@[k]));
                if k < i {
                    assert(r@[k] == r_old[k]);
                    assert(deref_nested(r_old)[k] == *(r_old[k]));
                    assert(deref_nested(r_old)[k] == children@.take(i as int)[k]);
                } else {
                    assert(r@[k] == c);
                }
            }
            assert(deref_nested(r@).len() == i + 1);
            assert(deref_nested(r@) =~= children@.take(i + 1));
        }
        i = i + 1;
    }
    proof {
        assert(children@.take(children@.len() as int) =~= children@);
    }
    r
}

/// Gathers the candidate groups reached by descending the namespace segments
/// from `from` onward, in encounter order.
fn collect_nested_groups<'a>(
    nodes: &Vec<&'a NestedMeta>,
    namespaces: &Vec<String>,
    from: usize,
) -> (r: Vec<Vec<&'a NestedMeta>>)
    requires
        from <= namespaces@.len(),
    ensures
        deref_groups(r@) == nested_groups(
            deref_nested(nodes@),
            view_of_names(namespaces@).skip(from as int),
        ),
    decreases namespaces@.len() - from,
{
    let ghost ns: Seq<Seq<char>> = view_of_names(namespaces@).skip(from as int);
    let ghost dn: Seq<NestedMeta> = deref_nested(nodes@);
    if from == namespaces.len() {
        let mut g: Vec<&'a NestedMeta> = Vec::new();
        let mut i: usize = 0;
        while i < nodes.len()
            invariant
                i <= nodes@.len(),
                g@ == nodes@.take(i as int),
            decreases nodes@.len() - i,
        {
            g.push(nodes[i]);
            proof {
                assert(nodes@.take(i + 1) =~= nodes@.take(i as int).push(nodes@[i as int]));
            }
            i = i + 1;
        }
        proof {
            assert(nodes@.take(nodes@.len() as int) =~= nodes@);
        }
        let mut r: Vec<Vec<&'a NestedMeta>> = Vec::new();
        r.push(g);
        proof {
            assert(ns.len() == 0);
            assert(deref_nested(g@) == dn);
            assert(deref_groups(r@) =~= seq![deref_nested(g@)]);
            assert(nested_groups(dn, ns) == seq![dn]);
        }
        r
    } else {
        let mut r: Vec<Vec<&'a NestedMeta>> = Vec::new();
        let mut i: usize = 0;
        proof {
            assert(ns.len() > 0);
            assert(ns[0] == namespaces@[from as int]@);
        }
        let nslen = namespaces.len();
        while i < nodes.len()
            invariant
                i <= nodes@.len(),
                nslen == namespaces@.len(),
                from < nslen,
                ns == view_of_names(namespaces@).skip(from as int),
                ns.len() > 0,
                ns[0] == namespaces@[from as int]@,
                dn == deref_nested(nodes@),
                deref_groups(r@) == nested_groups(dn.take(i as int), ns),
            decreases nodes@.len() - i,
        {
            let node: &'a NestedMeta = nodes[i];
            proof {
                assert(dn[i as int] == *node);
            }
            match node {
                NestedMeta::Node(m) => match m {
                    MetaNode::List(p, children) => {
                        if path_last_eq(p, &namespaces[from]) {
                            let crefs = child_refs(children);
                            let mut sub = collect_nested_groups(&crefs, namespaces, from + 1);
                            proof {
                                assert(*node == NestedMeta::Node(MetaNode::List(*p, *children)));
                                assert(view_of_names(namespaces@).skip(from + 1)
                                    =~= ns.drop_first());
                                assert(deref_groups(sub@) == nested_groups(
                                    children@,
                                    ns.drop_first(),
                                ));
                                assert(node_groups(dn[i as int], ns) == deref_groups(sub@));
                                lemma_nested_groups_step(dn, i as int, ns);
                                assert(deref_groups(r@ + sub@) =~= deref_groups(r@) + deref_groups(
                                    sub@,
                                ));
                            }
                            r.append(&mut sub);
                        } else {
                            proof {
                                assert(node_groups(dn[i as int], ns) =~= Seq::<
                                    Seq<NestedMeta>,
                                >::empty());
                                lemma_nested_groups_step(dn, i as int, ns);
                                assert(nested_groups(dn.take(i as int), ns) + Seq::<
                                    Seq<NestedMeta>,
                                >::empty() =~= nested_groups(dn.take(i as int), ns));
                            }
                        }
                    },
                    _ => {
                        proof {
                            assert(node_groups(dn[i as int], ns) =~= Seq::<
                                Seq<NestedMeta>,
                            >::empty());
                            lemma_nested_groups_step(dn, i as int, ns);
                            assert(nested_groups(dn.take(i as int), ns) + Seq::<
                                Seq<NestedMeta>,
                            >::empty() =~= nested_groups(dn.take(i as int), ns));
                        }
                    },
                },
                NestedMeta::Lit(_l) => {
                    proof {
                        assert(node_groups(dn[i as int], ns) =~= Seq::<Seq<NestedMeta>>::empty());
                        lemma_nested_groups_step(dn, i as int, ns);
                        assert(nested_groups(dn.take(i as int), ns) + Seq::<
                            Seq<NestedMeta>,
                        >::empty() =~= nested_groups(dn.take(i as int), ns));
                    }
                },
            }
            i = i + 1;
        }
        proof {
            assert(dn.take(dn.len() as int) =~= dn);
        }
        r
    }
}

/// When every node before `j` passes validation and the node at `j` fails it,
/// `j`'s key is the one the group reports.
proof fn lemma_group_first_rejected_at(g: Seq<NestedMeta>, allow: Option<Seq<Seq<char>>>, j: int)
    requires
        0 <= j < g.len(),
        forall|k: int| 0 <= k < j ==> nested_allowed(#[trigger] g[k], allow),
        !nested_allowed(g[j], allow),
    ensures
        group_first_rejected(g, allow) == nested_key(g[j]),
    decreases j,
{
    if j > 0 {
        assert(nested_allowed(g[0], allow));
        lemma_group_first_rejected_at(g.drop_first(), allow, j - 1);
        assert(g.drop_first()[j - 1] == g[j]);
    }
}

/// Resolves `attr_name` over candidate groups in encounter order: each group
/// is validated whole, then searched, and the first value found is returned.
#[verifier::loop_isolation(false)]
fn resolve_in_groups(
    groups: &Vec<Vec<&NestedMeta>>,
    attr_name: &String,
    allow: &Option<Vec<String>>,
) -> (r: Result<Option<String>, HelperError>)
    ensures
        resolution_matches(
            resolve_groups(deref_groups(groups@), attr_name@, opt_names_view(*allow)),
            r,
            opt_names_view(*allow),
        ),
{
    let ghost gs = deref_groups(groups@);
    let ghost allowv = opt_names_view(*allow);
    proof {
        assert(gs.skip(0) =~= gs);
    }
    let mut i: usize = 0;
    while i < groups.len()
        invariant
            i <= groups@.len(),
            gs == deref_groups(groups@),
            allowv == opt_names_view(*allow),
            resolve_groups(gs, attr_name@, allowv) == resolve_groups(
                gs.skip(i as int),
                attr_name@,
                allowv,
            ),
        decreases groups@.len() - i,
    {
        let g: &Vec<&NestedMeta> = &groups[i];
        let ghost gseq = deref_nested(g@);
        proof {
            assert(gs[i as int] == gseq);
            assert(gs.skip(i as int)[0] == gs[i as int]);
            assert(gseq.skip(0) =~= gseq);
        }
        // validate every node of the group before searching it
        let mut j: usize = 0;
        while j < g.len()
            invariant
                j <= g@.len(),
                gseq == deref_nested(g@),
                allowv == opt_names_view(*allow),
                forall|k: int| 0 <= k < j ==> nested_allowed(#[trigger] gseq[k], allowv),
            decreases g@.len() - j,
        {
            let node: &NestedMeta = g[j];
            proof {
                assert(gseq[j as int] == *node);
            }
            match node {
                NestedMeta::Node(m) => {
                    match check_meta_available(m, allow) {
                        Result::Ok(_b) => {},
                        Result::Err(e) => {
                            proof {
                                assert(!nested_allowed(gseq[j as int], allowv));
                                lemma_group_first_rejected_at(gseq, allowv, j as int);
                                assert(!group_all_allowed(gseq, allowv));
                                assert(resolve_groups(gs.skip(i as int), attr_name@, allowv)
                                    == Outcome::Rejected(group_first_rejected(gseq, allowv)));
                                assert(nested_key(gseq[j as int]) == meta_key(*m));
                            }
                            return Result::Err(e);
                        },
                    }
                },
                NestedMeta::Lit(_l) => {},
            }
            j = j + 1;
        }
        proof {
            assert(group_all_allowed(gseq, allowv));
        }
        // search the validated group for the first matching value
        let mut j2: usize = 0;
        while j2 < g.len()
            invariant
                j2 <= g@.len(),
                gseq == deref_nested(g@),
                allowv == opt_names_view(*allow),
                group_value_for(gseq, attr_name@) == group_value_for(
                    gseq.skip(j2 as int),
                    attr_name@,
                ),
            decreases g@.len() - j2,
        {
            let node: &NestedMeta = g[j2];
            proof {
                assert(gseq[j2 as int] == *node);
                assert(gseq.skip(j2 as int)[0] == gseq[j2 as int]);
            }
            match node {
                NestedMeta::Node(m) => {
                    match get_macro_attr_value_from_meta(m, attr_name) {
                        Result::Ok(opt) => match opt {
                            Option::Some(s) => {
                                proof {
                                    assert(nested_value_for(gseq[j2 as int], attr_name@) is Some);
                                    assert(group_value_for(gseq.skip(j2 as int), attr_name@)
                                        == nested_value_for(gseq[j2 as int], attr_name@));
                                    assert(resolve_groups(gs.skip(i as int), attr_name@, allowv)
                                        == Outcome::Found(s@));
                                }
                                return Result::Ok(Option::Some(s));
                            },
                            Option::None => {},
                        },
                        Result::Err(_e) => {
                            return vstd::pervasive::unreached();
                        },
                    }
                },
                NestedMeta::Lit(_l) => {},
            }
            proof {
                assert(gseq.skip(j2 as int).drop_first() =~= gseq.skip(j2 + 1));
            }
            j2 = j2 + 1;
        }
        proof {
            assert(gseq.skip(g@.len() as int) =~= Seq::<NestedMeta>::empty());
            assert(group_value_for(gseq, attr_name@) is None);
            assert(gs.skip(i as int).drop_first() =~= gs.skip(i + 1));
        }
        i = i + 1;
    }
    proof {
        assert(gs.skip(groups@.len() as int) =~= Seq::<Seq<NestedMeta>>::empty());
    }
    Result::Ok(Option::None)
}

/// Direct resolution over top-level nodes: validate, then test, node by node.
#[verifier::loop_isolation(false)]
fn scan_metas_exec(metas: &Vec<&MetaNode>, attr_name: &String, allow: &Option<Vec<String>>) -> (r:
    Result<Option<String>, HelperError>)
    ensures
        resolution_matches(
            scan_metas(deref_metas(metas@), attr_name@, opt_names_view(*allow)),
            r,
            opt_names_view(*allow),
        ),
{
    let ghost ms = deref_metas(metas@);
    let ghost allowv = opt_names_view(*allow);
    proof {
        assert(ms.skip(0) =~= ms);
    }
    let mut i: usize = 0;
    while i < metas.len()
        invariant
            i <= metas@.len(),
            ms == deref_metas(metas@),
            allowv == opt_names_view(*allow),
            scan_metas(ms, attr_name@, allowv) == scan_metas(ms.skip(i as int), attr_name@, allowv),
        decreases metas@.len() - i,
    {
        let m: &MetaNode = metas[i];
        proof {
            assert(ms[i as int] == *m);
            assert(ms.skip(i as int)[0] == ms[i as int]);
        }
        match check_meta_available(m, allow) {
            Result::Ok(_b) => {},
            Result::Err(e) => {
                proof {
                    assert(scan_metas(ms.skip(i as int), attr_name@, allowv) == Outcome::Rejected(
                        meta_key(*m),
                    ));
                }
                return Result::Err(e);
            },
        }
        match get_macro_attr_value_from_meta(m, attr_name) {
            Result::Ok(opt) => match opt {
                Option::Some(s) => {
                    proof {
                        assert(scan_metas(ms.skip(i as int), attr_name@, allowv) == Outcome::Found(
                            s@,
                        ));
                    }
                    return Result::Ok(Option::Some(s));
                },
                Option::None => {},
            },
            Result::Err(_e) => {
                return vstd::pervasive::unreached();
            },
        }
        proof {
            assert(ms.skip(i as int).drop_first() =~= ms.skip(i + 1));
        }
        i = i + 1;
    }
    proof {
        assert(ms.skip(metas@.len() as int) =~= Seq::<MetaNode>::empty());
    }
    Result::Ok(Option::None)
}

/// Gathers the candidate groups reached from top-level nodes for a non-empty
/// namespace path.
#[verifier::loop_isolation(false)]
fn collect_meta_groups<'a>(metas: &Vec<&'a MetaNode>, namespaces: &Vec<String>) -> (r: Vec<
    Vec<&'a NestedMeta>,
>)
    requires
        namespaces@.len() > 0,
    ensures
        deref_groups(r@) == meta_groups(deref_metas(metas@), view_of_names(namespaces@)),
{
    let ghost ns = view_of_names(namespaces@);
    let ghost w = as_nested(deref_metas(metas@));
    let mut r: Vec<Vec<&'a NestedMeta>> = Vec::new();
    let mut i: usize = 0;
    proof {
        assert(w.take(0) =~= Seq::<NestedMeta>::empty());
        assert(nested_groups(w.take(0), ns) =~= Seq::<Seq<NestedMeta>>::empty());
        assert(deref_groups(r@) =~= Seq::<Seq<NestedMeta>>::empty());
    }
    while i < metas.len()
        invariant
            i <= metas@.len(),
            deref_groups(r@) == nested_groups(w.take(i as int), ns),
        decreases metas@.len() - i,
    {
        let node: &'a MetaNode = metas[i];
        proof {
            assert(deref_metas(metas@)[i as int] == *node);
            assert(w[i as int] == NestedMeta::Node(*node));
        }
        match node {
            MetaNode::List(p, children) => {
                if path_last_eq(p, &namespaces[0]) {
                    let crefs = child_refs(children);
                    let mut sub = collect_nested_groups(&crefs, namespaces, 1);
                    proof {
                        assert(*node == MetaNode::List(*p, *children));
                        assert(view_of_names(namespaces@).skip(1) =~= ns.drop_first());
                        assert(deref_groups(sub@) == nested_groups(children@, ns.drop_first()));
                        assert(node_groups(w[i as int], ns) == deref_groups(sub@));
                        lemma_nested_groups_step(w, i as int, ns);
                        assert(deref_groups(r@ + sub@) =~= deref_groups(r@) + deref_groups(sub@));
                    }
                    r.append(&mut sub);
                } else {
                    proof {
                        assert(node_groups(w[i as int], ns) =~= Seq::<Seq<NestedMeta>>::empty());
                        lemma_nested_groups_step(w, i as int, ns);
                        assert(nested_groups(w.take(i as int), ns) + Seq::<
                            Seq<NestedMeta>,
                        >::empty() =~= nested_groups(w.take(i as int), ns));
                    }
                }
            },
            _ => {
                proof {
                    assert(node_groups(w[i as int], ns) =~= Seq::<Seq<NestedMeta>>::empty());
                    lemma_nested_groups_step(w, i as int, ns);
                    assert(nested_groups(w.take(i as int), ns) + Seq::<Seq<NestedMeta>>::empty()
                        =~= nested_groups(w.take(i as int), ns));
                }
            },
        }
        i = i + 1;
    }
    proof {
        assert(w.take(w.len() as int) =~= w);
    }
    r
}

/// Finds every candidate group addressed by the namespace path under the
/// given top-level nodes: each list node whose path ends in the first segment
/// is descended with the remaining segments, and the groups are returned in
/// encounter order, `None` when there is none (in particular for an empty
/// path). Descent itself never fails.
pub fn get_namespace_nested_metas_vec_from_metas<'a>(
    metas: Vec<&'a MetaNode>,
    namespaces: Vec<String>,
) -> (r: Result<Option<Vec<Vec<&'a NestedMeta>>>, HelperError>)
    ensures
        r is Ok,
        ({
            let gs = meta_groups(deref_metas(metas@), view_of_names(namespaces@));
            match r->Ok_0 {
                Option::Some(v) => gs.len() > 0 && deref_groups(v@) == gs,
                Option::None => gs.len() == 0,
            }
        }),
{
    if namespaces.len() == 0 {
        return Result::Ok(Option::None);
    }
    let groups = collect_meta_groups(&metas, &namespaces);
    if groups.len() > 0 {
        Result::Ok(Option::Some(groups))
    } else {
        Result::Ok(Option::None)
    }
}

/// Finds every candidate group addressed by the namespace path under the
/// given nested nodes; an empty path addresses the nodes themselves as one
/// group. Returns `None` when no group matches. Descent itself never fails.
pub fn get_namespace_nested_metas_vec_from_nested_metas<'a>(
    nested_metas: Vec<&'a NestedMeta>,
    namespaces: Vec<String>,
) -> (r: Result<Option<Vec<Vec<&'a NestedMeta>>>, HelperError>)
    ensures
        r is Ok,
        ({
            let gs = nested_groups(deref_nested(nested_metas@), view_of_names(namespaces@));
            match r->Ok_0 {
                Option::Some(v) => gs.len() > 0 && deref_groups(v@) == gs,
                Option::None => gs.len() == 0,
            }
        }),
{
    let groups = collect_nested_groups(&nested_metas, &namespaces, 0);
    proof {
        assert(view_of_names(namespaces@).skip(0) =~= view_of_names(namespaces@));
    }
    if groups.len() > 0 {
        Result::Ok(Option::Some(groups))
    } else {
        Result::Ok(Option::None)
    }
}

/// Resolves `attr_name` among top-level annotation nodes. With an absent or
/// empty namespace path the nodes are scanned directly, each validated and
/// then tested in turn; with a non-empty path every addressed candidate group
/// is validated whole and then searched, in encounter order. Returns the
/// first value found, `None` when the key is absent, and the disallowed-key
/// error when validation rejects a key before a value is found.
pub fn get_macro_attr_value_ident(
    metas: Vec<&MetaNode>,
    attr_name: &str,
    namespaces: Option<Vec<String>>,
    namespace_allow_attrs: Option<Vec<String>>,
) -> (r: Result<Option<String>, HelperError>)
    ensures
        resolution_matches(
            meta_resolution(
                deref_metas(metas@),
                attr_name@,
                opt_ns_view(namespaces),
                opt_names_view(namespace_allow_attrs),
            ),
            r,
            opt_names_view(namespace_allow_attrs),
        ),
{
    let name: String = attr_name.to_owned();
    let ns: Vec<String> = match namespaces {
        Option::Some(v) => v,
        Option::None => Vec::new(),
    };
    proof {
        assert(view_of_names(ns@) =~= opt_ns_view(namespaces));
    }
    if ns.len() == 0 {
        scan_metas_exec(&metas, &name, &namespace_allow_attrs)
    } else {
        let groups = collect_meta_groups(&metas, &ns);
        resolve_in_groups(&groups, &name, &namespace_allow_attrs)
    }
}

/// Resolves `attr_name` among nested annotation nodes. The namespace path
/// (absent means empty, which addresses the nodes themselves as one group)
/// selects candidate groups; each group is validated whole against the
/// allow-list and then searched, in encounter order. Returns the first value
/// found, `None` when the key is absent, and the disallowed-key error when
/// validation rejects a key before a value is found.
pub fn get_macro_nested_attr_value_ident(
    nested_metas: Vec<&NestedMeta>,
    attr_name: &str,
    namespaces: Option<Vec<String>>,
    namespace_allow_attrs: Option<Vec<String>>,
) -> (r: Result<Option<String>, HelperError>)
    ensures
        resolution_matches(
            nested_resolution(
                deref_nested(nested_metas@),
                attr_name@,
                opt_ns_view(namespaces),
                opt_names_view(namespace_allow_attrs),
            ),
            r,
            opt_names_view(namespace_allow_attrs),
        ),
{
    let name: String = attr_name.to_owned();
    let ns: Vec<String> = match namespaces {
        Option::Some(v) => v,
        Option::None => Vec::new(),
    };
    proof {
        assert(view_of_names(ns@) =~= opt_ns_view(namespaces));
    }
    let groups = collect_nested_groups(&nested_metas, &ns, 0);
    proof {
        assert(view_of_names(ns@).skip(0) =~= view_of_names(ns@));
    }
    resolve_in_groups(&groups, &name, &namespace_allow_attrs)
}

} // verus!
