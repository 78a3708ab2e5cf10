//! The tree of a knowledge base, built from its flat list of nodes (each
//! names its parent), for editors and for readers; counts over the tree,
//! breadcrumbs, and the previous and next document.
use vstd::prelude::*;
use vstd::set_lib::{lemma_int_range, lemma_len_subset, set_int_range};

use crate::models::kb::{KbCrumb, KbNode, KbTreeNode};
use crate::text::{chars_of, count_non_ws, count_non_ws_of, push_str, string_of};

verus! {

/// A tree node as plain values.
pub struct KbTreeModel {
    pub id: i64,
    pub parent_id: Option<i64>,
    pub node_type: Seq<char>,
    pub title: Seq<char>,
    pub slug: Seq<char>,
    pub status: Seq<char>,
    pub visibility: Seq<char>,
    pub updated_at: Seq<char>,
    pub children: Seq<KbTreeModel>,
}

pub open spec fn tree_view(t: KbTreeNode) -> KbTreeModel
    decreases t,
{
    KbTreeModel {
        id: t.id,
        parent_id: t.parent_id,
        node_type: t.node_type@,
        title: t.title@,
        slug: t.slug@,
        status: t.status@,
        visibility: t.visibility@,
        updated_at: t.updated_at@,
        children: forest_view(t.children@),
    }
}

pub open spec fn forest_view(f: Seq<KbTreeNode>) -> Seq<KbTreeModel>
    decreases f,
{
    if f.len() == 0 {
        Seq::empty()
    } else {
        forest_view(f.drop_last()).push(tree_view(f.last()))
    }
}

pub proof fn lemma_forest_view_push(f: Seq<KbTreeNode>, t: KbTreeNode)
    ensures
        forest_view(f.push(t)) == forest_view(f).push(tree_view(t)),
{
    assert(f.push(t).drop_last() =~= f);
}

pub proof fn lemma_forest_view_len(f: Seq<KbTreeNode>)
    ensures
        forest_view(f).len() == f.len(),
    decreases f.len(),
{
    if f.len() > 0 {
        lemma_forest_view_len(f.drop_last());
    }
}

/// No two nodes share an id, as the database guarantees.
pub open spec fn distinct_ids(nodes: Seq<KbNode>) -> bool {
    forall|i: int, j: int|
        0 <= i < nodes.len() && 0 <= j < nodes.len() && i != j ==> nodes[i].id != nodes[j].id
}

/// The positions, among the first `m`, of the nodes whose parent is `pid`.
pub open spec fn kids_upto(nodes: Seq<KbNode>, pid: Option<i64>, m: int) -> Seq<int>
    decreases m,
{
    if m <= 0 {
        Seq::empty()
    } else if nodes[m - 1].parent_id == pid {
        kids_upto(nodes, pid, m - 1).push(m - 1)
    } else {
        kids_upto(nodes, pid, m - 1)
    }
}

pub open spec fn kids(nodes: Seq<KbNode>, pid: Option<i64>) -> Seq<int> {
    kids_upto(nodes, pid, nodes.len() as int)
}

pub open spec fn node_model(n: KbNode, children: Seq<KbTreeModel>) -> KbTreeModel {
    KbTreeModel {
        id: n.id,
        parent_id: n.parent_id,
        node_type: n.node_type@,
        title: n.title@,
        slug: n.slug@,
        status: n.status@,
        visibility: n.visibility@,
        updated_at: n.updated_at@,
        children,
    }
}

/// The subtrees rooted at the nodes `idxs`, `fuel` levels deep.
pub open spec fn kb_forest(nodes: Seq<KbNode>, idxs: Seq<int>, fuel: nat) -> Seq<KbTreeModel>
    decreases fuel, idxs.len(),
{
    if idxs.len() == 0 {
        Seq::empty()
    } else {
        kb_forest(nodes, idxs.drop_last(), fuel).push(kb_subtree(nodes, idxs.last(), fuel))
    }
}

pub open spec fn kb_subtree(nodes: Seq<KbNode>, i: int, fuel: nat) -> KbTreeModel
    decreases fuel, 0int,
{
    let kids_f = if fuel == 0 {
        Seq::empty()
    } else {
        kb_forest(nodes, kids(nodes, Some(nodes[i].id)), (fuel - 1) as nat)
    };
    node_model(nodes[i], kids_f)
}

/// The tree an editor sees: every node under its parent, in list order;
/// roots are the nodes without a parent.
pub open spec fn kb_tree_spec(nodes: Seq<KbNode>) -> Seq<KbTreeModel> {
    kb_forest(nodes, kids(nodes, None), nodes.len())
}

/// The subtree a reader sees, if any: documents the reader may not read
/// are left out with everything under them; folders left empty are left
/// out for guests.
pub open spec fn pub_subtree(nodes: Seq<KbNode>, i: int, logged_in: bool, fuel: nat) -> Option<
    KbTreeModel,
>
    decreases fuel, 0int,
{
    let kids_f = if fuel == 0 {
        Seq::empty()
    } else {
        pub_forest(nodes, kids(nodes, Some(nodes[i].id)), logged_in, (fuel - 1) as nat)
    };
    let n = nodes[i];
    if n.folder() {
        if kids_f.len() == 0 && !logged_in {
            None
        } else {
            Some(node_model(n, kids_f))
        }
    } else if !(logged_in || n.publicly_visible()) {
        None
    } else {
        Some(node_model(n, kids_f))
    }
}

pub open spec fn pub_forest(nodes: Seq<KbNode>, idxs: Seq<int>, logged_in: bool, fuel: nat) -> Seq<
    KbTreeModel,
>
    decreases fuel, idxs.len(),
{
    if idxs.len() == 0 {
        Seq::empty()
    } else {
        let acc = pub_forest(nodes, idxs.drop_last(), logged_in, fuel);
        match pub_subtree(nodes, idxs.last(), logged_in, fuel) {
            Some(t) => acc.push(t),
            None => acc,
        }
    }
}

pub open spec fn pub_tree_spec(nodes: Seq<KbNode>, logged_in: bool) -> Seq<KbTreeModel> {
    pub_forest(nodes, kids(nodes, None), logged_in, nodes.len())
}

/// `path` leads from a root down to its last node, through distinct nodes.
pub open spec fn is_chain(nodes: Seq<KbNode>, path: Seq<int>) -> bool {
    &&& path.len() >= 1
    &&& path.no_duplicates()
    &&& forall|k: int| 0 <= k < path.len() ==> 0 <= #[trigger] path[k] < nodes.len()
    &&& nodes[path[0]].parent_id is None
    &&& forall|k: int|
        1 <= k < path.len() ==> nodes[#[trigger] path[k]].parent_id == Some(nodes[path[k - 1]].id)
}

pub proof fn lemma_distinct_bound(p: Seq<int>, n: int)
    requires
        n >= 0,
        p.no_duplicates(),
        forall|k: int| 0 <= k < p.len() ==> 0 <= #[trigger] p[k] < n,
    ensures
        p.len() <= n,
{
    if p.len() > 0 {
        assert(0 <= p[0] < n);
        p.unique_seq_to_set();
        lemma_int_range(0, n);
        assert forall|x: int| p.to_set().contains(x) implies set_int_range(0, n).contains(x) by {
            assert(p.contains(x));
            let k = choose|k: int| 0 <= k < p.len() && p[k] == x;
            assert(0 <= p[k] < n);
        }
        assert(p.to_set().subset_of(set_int_range(0, n)));
        lemma_len_subset(p.to_set(), set_int_range(0, n));
    }
}

/// A child of a chain's last node is not on the chain, so the chain can be
/// extended by it.
proof fn lemma_chain_extend(nodes: Seq<KbNode>, path: Seq<int>, c: int)
    requires
        distinct_ids(nodes),
        is_chain(nodes, path),
        0 <= c < nodes.len(),
        nodes[c].parent_id == Some(nodes[path.last()].id),
    ensures
        !path.contains(c),
        is_chain(nodes, path.push(c)),
        path.len() + 1 <= nodes.len(),
{
    if path.contains(c) {
        let k = choose|k: int| 0 <= k < path.len() && path[k] == c;
        if k == 0 {
            assert(nodes[path[0]].parent_id is None);
        } else {
            assert(nodes[path[k]].parent_id == Some(nodes[path[k - 1]].id));
            assert(nodes[path[k - 1]].id == nodes[path.last()].id);
            assert(path[k - 1] == path[path.len() - 1]);
        }
    }
    let q = path.push(c);
    assert(q.no_duplicates()) by {
        assert forall|a: int, b: int| 0 <= a < q.len() && 0 <= b < q.len() && a != b implies q[a]
            != q[b] by {
            if a == q.len() - 1 {
                assert(path.contains(q[b]) || b == a);
            } else if b == q.len() - 1 {
                assert(path.contains(q[a]));
            }
        }
    }
    assert forall|k: int| 1 <= k < q.len() implies nodes[#[trigger] q[k]].parent_id == Some(
        nodes[q[k - 1]].id,
    ) by {
        if k == q.len() - 1 {
        } else {
            assert(q[k] == path[k]);
        }
    }
    lemma_distinct_bound(q, nodes.len() as int);
}

proof fn lemma_kids_upto_push(nodes: Seq<KbNode>, pid: Option<i64>, m: int)
    requires
        0 <= m < nodes.len(),
    ensures
        kids_upto(nodes, pid, m + 1) == if nodes[m].parent_id == pid {
            kids_upto(nodes, pid, m).push(m)
        } else {
            kids_upto(nodes, pid, m)
        },
{
}

proof fn lemma_kb_forest_push(nodes: Seq<KbNode>, idxs: Seq<int>, j: int, fuel: nat)
    ensures
        kb_forest(nodes, idxs.push(j), fuel) == kb_forest(nodes, idxs, fuel).push(
            kb_subtree(nodes, j, fuel),
        ),
{
    assert(idxs.push(j).drop_last() =~= idxs);
}

proof fn lemma_pub_forest_push(nodes: Seq<KbNode>, idxs: Seq<int>, j: int, logged_in: bool, fuel: nat)
    ensures
        pub_forest(nodes, idxs.push(j), logged_in, fuel) == match pub_subtree(
            nodes,
            j,
            logged_in,
            fuel,
        ) {
            Some(t) => pub_forest(nodes, idxs, logged_in, fuel).push(t),
            None => pub_forest(nodes, idxs, logged_in, fuel),
        },
{
    assert(idxs.push(j).drop_last() =~= idxs);
}

fn copy_node(n: &KbNode, children: Vec<KbTreeNode>) -> (r: KbTreeNode)
    ensures
        tree_view(r) == node_model(*n, forest_view(children@)),
{
    KbTreeNode {
        id: n.id,
        parent_id: n.parent_id,
        node_type: n.node_type.clone(),
        title: n.title.clone(),
        slug: n.slug.clone(),
        status: n.status.clone(),
        visibility: n.visibility.clone(),
        updated_at: n.updated_at.clone(),
        children,
    }
}

fn to_tree(nodes: &Vec<KbNode>, i: usize, Ghost(path): Ghost<Seq<int>>) -> (r: KbTreeNode)
    requires
        distinct_ids(nodes@),
        is_chain(nodes@, path),
        path.last() == i,
    ensures
        tree_view(r) == kb_subtree(nodes@, i as int, (nodes@.len() + 1 - path.len()) as nat),
    decreases nodes@.len() - path.len(),
{
    proof {
        lemma_distinct_bound(path, nodes@.len() as int);
    }
    let ghost fuel: nat = (nodes@.len() + 1 - path.len()) as nat;
    let id = nodes[i].id;
    let mut children: Vec<KbTreeNode> = Vec::new();
    let mut j: usize = 0;
    while j < nodes.len()
        invariant
            distinct_ids(nodes@),
            is_chain(nodes@, path),
            path.last() == i,
            i < nodes@.len(),
            id == nodes@[i as int].id,
            fuel == nodes@.len() + 1 - path.len(),
            fuel >= 1,
            0 <= j <= nodes.len(),
            forest_view(children@) == kb_forest(
                nodes@,
                kids_upto(nodes@, Some(id), j as int),
                (fuel - 1) as nat,
            ),
        decreases nodes.len() - j,
    {
        proof {
            lemma_kids_upto_push(nodes@, Some(id), j as int);
        }
        if nodes[j].parent_id == Some(id) {
            proof {
                lemma_chain_extend(nodes@, path, j as int);
                lemma_kb_forest_push(
                    nodes@,
                    kids_upto(nodes@, Some(id), j as int),
                    j as int,
                    (fuel - 1) as nat,
                );
            }
            let child = to_tree(nodes, j, Ghost(path.push(j as int)));
            let ghost prev = children@;
            children.push(child);
            proof {
                lemma_forest_view_push(prev, child);
            }
        }
        j = j + 1;
    }
    copy_node(&nodes[i], children)
}

pub open spec fn root_chain(i: int) -> Seq<int> {
    seq![i]
}

/// The tree an editor sees: `kb_tree_spec`.
pub fn build_kb_tree(nodes: &Vec<KbNode>) -> (r: Vec<KbTreeNode>)
    requires
        distinct_ids(nodes@),
    ensures
        forest_view(r@) == kb_tree_spec(nodes@),
{
    let mut out: Vec<KbTreeNode> = Vec::new();
    let mut j: usize = 0;
    while j < nodes.len()
        invariant
            distinct_ids(nodes@),
            0 <= j <= nodes.len(),
            forest_view(out@) == kb_forest(nodes@, kids_upto(nodes@, None, j as int), nodes@.len()),
        decreases nodes.len() - j,
    {
        proof {
            lemma_kids_upto_push(nodes@, None, j as int);
        }
        if nodes[j].parent_id.is_none() {
            let ghost path = root_chain(j as int);
            proof {
                assert(path.no_duplicates());
                lemma_kb_forest_push(
                    nodes@,
                    kids_upto(nodes@, None, j as int),
                    j as int,
                    nodes@.len(),
                );
            }
            let t = to_tree(nodes, j, Ghost(path));
            let ghost prev = out@;
            out.push(t);
            proof {
                lemma_forest_view_push(prev, t);
            }
        }
        j = j + 1;
    }
    out
}

fn to_pub_tree(nodes: &Vec<KbNode>, i: usize, logged_in: bool, Ghost(path): Ghost<Seq<int>>) -> (r:
    Option<KbTreeNode>)
    requires
        distinct_ids(nodes@),
        is_chain(nodes@, path),
        path.last() == i,
    ensures
        match r {
            Some(t) => pub_subtree(
                nodes@,
                i as int,
                logged_in,
                (nodes@.len() + 1 - path.len()) as nat,
            ) == Some(tree_view(t)),
            None => pub_subtree(
                nodes@,
                i as int,
                logged_in,
                (nodes@.len() + 1 - path.len()) as nat,
            ) is None,
        },
    decreases nodes@.len() - path.len(),
{
    proof {
        lemma_distinct_bound(path, nodes@.len() as int);
    }
    let ghost fuel: nat = (nodes@.len() + 1 - path.len()) as nat;
    let id = nodes[i].id;
    let mut children: Vec<KbTreeNode> = Vec::new();
    let mut j: usize = 0;
    while j < nodes.len()
        invariant
            distinct_ids(nodes@),
            is_chain(nodes@, path),
            path.last() == i,
            i < nodes@.len(),
            id == nodes@[i as int].id,
            fuel == nodes@.len() + 1 - path.len(),
            fuel >= 1,
            0 <= j <= nodes.len(),
            forest_view(children@) == pub_forest(
                nodes@,
                kids_upto(nodes@, Some(id), j as int),
                logged_in,
                (fuel - 1) as nat,
            ),
        decreases nodes.len() - j,
    {
        proof {
            lemma_kids_upto_push(nodes@, Some(id), j as int);
        }
        if nodes[j].parent_id == Some(id) {
            proof {
                lemma_chain_extend(nodes@, path, j as int);
                lemma_pub_forest_push(
                    nodes@,
                    kids_upto(nodes@, Some(id), j as int),
                    j as int,
                    logged_in,
                    (fuel - 1) as nat,
                );
            }
            match to_pub_tree(nodes, j, logged_in, Ghost(path.push(j as int))) {
                Some(child) => {
                    let ghost prev = children@;
                    children.push(child);
                    proof {
                        lemma_forest_view_push(prev, child);
                    }
                },
                None => {},
            }
        }
        j = j + 1;
    }
    finish_pub_node(&nodes[i], children, logged_in)
}

fn finish_pub_node(n: &KbNode, children: Vec<KbTreeNode>, logged_in: bool) -> (r: Option<KbTreeNode>)
    ensures
        ({
            let kids_f = forest_view(children@);
            let expect = if n.folder() {
                if kids_f.len() == 0 && !logged_in {
                    None
                } else {
                    Some(node_model(*n, kids_f))
                }
            } else if !(logged_in || n.publicly_visible()) {
                None
            } else {
                Some(node_model(*n, kids_f))
            };
            match r {
                Some(t) => expect == Some(tree_view(t)),
                None => expect is None,
            }
        }),
{
    proof {
        lemma_forest_view_len(children@);
    }
    if n.is_folder() {
        if children.len() == 0 && !logged_in {
            return None;
        }
    } else if !(logged_in || n.is_publicly_visible()) {
        return None;
    }
    Some(copy_node(n, children))
}

/// The tree a reader sees: `pub_tree_spec`.
pub fn build_public_kb_tree(nodes: &Vec<KbNode>, logged_in: bool) -> (r: Vec<KbTreeNode>)
    requires
        distinct_ids(nodes@),
    ensures
        forest_view(r@) == pub_tree_spec(nodes@, logged_in),
{
    let mut out: Vec<KbTreeNode> = Vec::new();
    let mut j: usize = 0;
    while j < nodes.len()
        invariant
            distinct_ids(nodes@),
            0 <= j <= nodes.len(),
            forest_view(out@) == pub_forest(
                nodes@,
                kids_upto(nodes@, None, j as int),
                logged_in,
                nodes@.len(),
            ),
        decreases nodes.len() - j,
    {
        proof {
            lemma_kids_upto_push(nodes@, None, j as int);
        }
        if nodes[j].parent_id.is_none() {
            let ghost path = root_chain(j as int);
            proof {
                assert(path.no_duplicates());
                lemma_pub_forest_push(
                    nodes@,
                    kids_upto(nodes@, None, j as int),
                    j as int,
                    logged_in,
                    nodes@.len(),
                );
            }
            match to_pub_tree(nodes, j, logged_in, Ghost(path)) {
                Some(t) => {
                    let ghost prev = out@;
                    out.push(t);
                    proof {
                        lemma_forest_view_push(prev, t);
                    }
                },
                None => {},
            }
        }
        j = j + 1;
    }
    out
}


// ---------------------------------------------------------------------------
// Counts, breadcrumbs and neighbours
// ---------------------------------------------------------------------------

/// The first node with this id.
pub open spec fn node_index(nodes: Seq<KbNode>, id: i64) -> Option<int> {
    if exists|j: int| 0 <= j < nodes.len() && nodes[j].id == id {
        Some(
            choose|j: int|
                0 <= j < nodes.len() && nodes[j].id == id && forall|k: int|
                    0 <= k < j ==> nodes[k].id != id,
        )
    } else {
        None
    }
}

pub fn find_node(nodes: &Vec<KbNode>, id: i64) -> (r: Option<usize>)
    ensures
        match r {
            Some(j) => node_index(nodes@, id) == Some(j as int) && j < nodes.len(),
            None => node_index(nodes@, id) is None,
        },
{
    let mut j: usize = 0;
    while j < nodes.len()
        invariant
            0 <= j <= nodes.len(),
            forall|k: int| 0 <= k < j ==> nodes@[k].id != id,
        decreases nodes.len() - j,
    {
        if nodes[j].id == id {
            proof {
                let c = choose|m: int|
                    0 <= m < nodes@.len() && nodes@[m].id == id && forall|k: int|
                        0 <= k < m ==> nodes@[k].id != id;
                assert(nodes@[j as int].id == id);
                if c < j {
                    assert(nodes@[c].id != id);
                }
                if j < c {
                    assert(nodes@[j as int].id != id);
                }
            }
            return Some(j);
        }
        j = j + 1;
    }
    None
}

/// The non-blank characters of the node with this id, or 0 when there is
/// none.
pub open spec fn words_of(nodes: Seq<KbNode>, id: i64) -> nat {
    match node_index(nodes, id) {
        Some(j) => count_non_ws(nodes[j].content_md@),
        None => 0,
    }
}

/// The documents of a forest and their non-blank characters.
pub open spec fn stats_forest(f: Seq<KbTreeModel>, nodes: Seq<KbNode>) -> (nat, nat)
    decreases f,
{
    if f.len() == 0 {
        (0, 0)
    } else {
        let a = stats_forest(f.drop_last(), nodes);
        let b = stats_node(f.last(), nodes);
        (a.0 + b.0, a.1 + b.1)
    }
}

pub open spec fn stats_node(t: KbTreeModel, nodes: Seq<KbNode>) -> (nat, nat)
    decreases t,
{
    let c = stats_forest(t.children, nodes);
    if t.node_type == "doc"@ {
        (c.0 + 1, c.1 + words_of(nodes, t.id))
    } else {
        c
    }
}

proof fn lemma_stats_prefix(f: Seq<KbTreeNode>, nodes: Seq<KbNode>, i: int)
    requires
        0 <= i < f.len(),
    ensures
        stats_forest(forest_view(f.take(i + 1)), nodes) == ({
            let a = stats_forest(forest_view(f.take(i)), nodes);
            let b = stats_node(tree_view(f[i]), nodes);
            (a.0 + b.0, a.1 + b.1)
        }),
{
    assert(f.take(i + 1) =~= f.take(i).push(f[i]));
    lemma_forest_view_push(f.take(i), f[i]);
    assert(forest_view(f.take(i)).push(tree_view(f[i])).drop_last() =~= forest_view(f.take(i)));
}

proof fn lemma_stats_mono(f: Seq<KbTreeNode>, nodes: Seq<KbNode>, i: int)
    requires
        0 <= i <= f.len(),
    ensures
        stats_forest(forest_view(f.take(i)), nodes).0 <= stats_forest(forest_view(f), nodes).0,
        stats_forest(forest_view(f.take(i)), nodes).1 <= stats_forest(forest_view(f), nodes).1,
    decreases f.len() - i,
{
    if i < f.len() {
        lemma_stats_prefix(f, nodes, i);
        lemma_stats_mono(f, nodes, i + 1);
    } else {
        assert(f.take(i) =~= f);
    }
}

fn words_exec(nodes: &Vec<KbNode>, id: i64) -> (r: usize)
    ensures
        r == words_of(nodes@, id),
{
    match find_node(nodes, id) {
        Some(j) => count_non_ws_of(&chars_of(nodes[j].content_md.as_str())),
        None => 0,
    }
}

fn stats_of_forest(f: &Vec<KbTreeNode>, nodes: &Vec<KbNode>) -> (r: (usize, usize))
    requires
        stats_forest(forest_view(f@), nodes@).0 <= usize::MAX,
        stats_forest(forest_view(f@), nodes@).1 <= usize::MAX,
    ensures
        r.0 == stats_forest(forest_view(f@), nodes@).0,
        r.1 == stats_forest(forest_view(f@), nodes@).1,
    decreases f@,
{
    let mut docs: usize = 0;
    let mut words: usize = 0;
    let mut i: usize = 0;
    assert(f@.take(0) =~= Seq::<KbTreeNode>::empty());
    while i < f.len()
        invariant
            0 <= i <= f.len(),
            stats_forest(forest_view(f@), nodes@).0 <= usize::MAX,
            stats_forest(forest_view(f@), nodes@).1 <= usize::MAX,
            docs == stats_forest(forest_view(f@.take(i as int)), nodes@).0,
            words == stats_forest(forest_view(f@.take(i as int)), nodes@).1,
        decreases f.len() - i,
    {
        proof {
            lemma_stats_prefix(f@, nodes@, i as int);
            lemma_stats_mono(f@, nodes@, i + 1);
        }
        let (d, w) = stats_of_node(&f[i], nodes);
        docs = docs + d;
        words = words + w;
        i = i + 1;
    }
    assert(f@.take(f@.len() as int) =~= f@);
    (docs, words)
}

fn stats_of_node(t: &KbTreeNode, nodes: &Vec<KbNode>) -> (r: (usize, usize))
    requires
        stats_node(tree_view(*t), nodes@).0 <= usize::MAX,
        stats_node(tree_view(*t), nodes@).1 <= usize::MAX,
    ensures
        r.0 == stats_node(tree_view(*t), nodes@).0,
        r.1 == stats_node(tree_view(*t), nodes@).1,
    decreases *t,
{
    let (d, w) = stats_of_forest(&t.children, nodes);
    if t.is_doc() {
        let extra = words_exec(nodes, t.id);
        (d + 1, w + extra)
    } else {
        (d, w)
    }
}

/// The documents of a tree, and their non-blank characters counted from the
/// node list.
pub fn kb_tree_stats(tree: &Vec<KbTreeNode>, nodes: &Vec<KbNode>) -> (r: (usize, usize))
    requires
        stats_forest(forest_view(tree@), nodes@).0 <= usize::MAX,
        stats_forest(forest_view(tree@), nodes@).1 <= usize::MAX,
    ensures
        r.0 == stats_forest(forest_view(tree@), nodes@).0,
        r.1 == stats_forest(forest_view(tree@), nodes@).1,
{
    stats_of_forest(tree, nodes)
}

/// A breadcrumb as plain text.
pub struct CrumbModel {
    pub title: Seq<char>,
    pub href: Option<Seq<char>>,
}

pub open spec fn crumb_model(c: KbCrumb) -> CrumbModel {
    CrumbModel {
        title: c.title@,
        href: match c.href {
            Some(h) => Some(h@),
            None => None,
        },
    }
}

pub open spec fn crumb_models(v: Seq<KbCrumb>) -> Seq<CrumbModel> {
    v.map_values(|c: KbCrumb| crumb_model(c))
}

/// How many ancestors a breadcrumb trail follows.
pub const CRUMB_GUARD: usize = 64;

/// The ancestors met walking up from `cur`, nearest first, after `guard`
/// steps: the walk stops at a missing node or after 64 steps.
pub open spec fn ancestors_from(
    nodes: Seq<KbNode>,
    cur: Option<i64>,
    guard: nat,
    book_slug: Seq<char>,
) -> Seq<CrumbModel>
    decreases 65 - guard,
{
    match cur {
        None => Seq::empty(),
        Some(pid) => if guard + 1 > CRUMB_GUARD || guard >= 65 {
            Seq::empty()
        } else {
            match node_index(nodes, pid) {
                None => Seq::empty(),
                Some(j) => seq![
                    CrumbModel {
                        title: nodes[j].title@,
                        href: Some("/docs/"@ + book_slug + "/"@ + nodes[j].slug@),
                    },
                ] + ancestors_from(nodes, nodes[j].parent_id, guard + 1, book_slug),
            }
        },
    }
}

/// The trail above a node, root first.
pub open spec fn breadcrumbs_spec(nodes: Seq<KbNode>, node: KbNode, book_slug: Seq<char>) -> Seq<
    CrumbModel,
> {
    ancestors_from(nodes, node.parent_id, 0, book_slug).reverse()
}

/// The crumb that shows a node: its title, linking to its page in the book.
pub open spec fn node_crumb(n: KbNode, book_slug: Seq<char>) -> CrumbModel {
    CrumbModel { title: n.title@, href: Some("/docs/"@ + book_slug + "/"@ + n.slug@) }
}

/// Whether a walk up stops at this parent: there is none, or no node has
/// its id.
pub open spec fn walk_stops(nodes: Seq<KbNode>, parent: Option<i64>) -> bool {
    match parent {
        None => true,
        Some(id) => node_index(nodes, id) is None,
    }
}

/// Crumb `k` of `r` shows the node at `idx[k]`.
pub open spec fn shows_node(nodes: Seq<KbNode>, book_slug: Seq<char>, r: Seq<CrumbModel>, idx: Seq<int>, k: int) -> bool {
    0 <= idx[k] < nodes.len() && r[k] == node_crumb(nodes[idx[k]], book_slug)
}

/// The node at `idx[k]` is the parent of the node at `idx[k + 1]`.
pub open spec fn parent_of_next(nodes: Seq<KbNode>, idx: Seq<int>, k: int) -> bool {
    nodes[idx[k + 1]].parent_id == Some(nodes[idx[k]].id)
}

/// The node at `idx[k + 1]` is the parent of the node at `idx[k]`.
pub open spec fn next_is_parent(nodes: Seq<KbNode>, idx: Seq<int>, k: int) -> bool {
    nodes[idx[k]].parent_id == Some(nodes[idx[k + 1]].id)
}

/// `r` is a trail root first, `idx` the positions of its nodes: the node of
/// each crumb is the parent of the node of the next, the last crumb's node
/// is `node`'s parent, and the first crumb's node is as high as the walk
/// goes (it has no parent to show, or the trail has reached its limit).
pub open spec fn root_first_trail(
    nodes: Seq<KbNode>,
    node: KbNode,
    book_slug: Seq<char>,
    r: Seq<CrumbModel>,
    idx: Seq<int>,
) -> bool {
    &&& idx.len() == r.len()
    &&& r.len() <= CRUMB_GUARD
    &&& forall|k: int| 0 <= k < r.len() ==> #[trigger] shows_node(nodes, book_slug, r, idx, k)
    &&& forall|k: int| 0 <= k < r.len() - 1 ==> #[trigger] parent_of_next(nodes, idx, k)
    &&& r.len() > 0 ==> node.parent_id == Some(nodes[idx[r.len() - 1]].id)
    &&& r.len() > 0 ==> walk_stops(nodes, nodes[idx[0]].parent_id) || r.len() == CRUMB_GUARD
    &&& r.len() == 0 ==> walk_stops(nodes, node.parent_id)
}

/// The walk up from `cur` (nearest first) as positions of nodes.
#[verifier::opaque]
pub open spec fn up_chain(
    nodes: Seq<KbNode>,
    cur: Option<i64>,
    g: nat,
    book_slug: Seq<char>,
    a: Seq<CrumbModel>,
    idx: Seq<int>,
) -> bool {
    &&& idx.len() == a.len()
    &&& a.len() + g <= CRUMB_GUARD
    &&& forall|k: int| 0 <= k < a.len() ==> #[trigger] shows_node(nodes, book_slug, a, idx, k)
    &&& forall|k: int| 0 <= k < a.len() - 1 ==> #[trigger] next_is_parent(nodes, idx, k)
    &&& a.len() > 0 ==> cur == Some(nodes[idx[0]].id)
    &&& a.len() > 0 ==> walk_stops(nodes, nodes[idx[a.len() - 1]].parent_id) || a.len() + g == CRUMB_GUARD
    &&& a.len() == 0 ==> walk_stops(nodes, cur) || g == CRUMB_GUARD
}

proof fn lemma_chain_empty(nodes: Seq<KbNode>, cur: Option<i64>, g: nat, book_slug: Seq<char>)
    requires
        g <= CRUMB_GUARD,
        walk_stops(nodes, cur) || g == CRUMB_GUARD,
    ensures
        up_chain(nodes, cur, g, book_slug, Seq::empty(), Seq::empty()),
{
    reveal(up_chain);
}

proof fn lemma_chain_step(
    nodes: Seq<KbNode>,
    pid: i64,
    j: int,
    g: nat,
    book_slug: Seq<char>,
    tail: Seq<CrumbModel>,
    rest: Seq<int>,
)
    requires
        0 <= j < nodes.len(),
        nodes[j].id == pid,
        g + 1 <= CRUMB_GUARD,
        up_chain(nodes, nodes[j].parent_id, g + 1, book_slug, tail, rest),
    ensures
        up_chain(
            nodes,
            Some(pid),
            g,
            book_slug,
            seq![node_crumb(nodes[j], book_slug)] + tail,
            seq![j] + rest,
        ),
{
    reveal(up_chain);
    let a = seq![node_crumb(nodes[j], book_slug)] + tail;
    let idx = seq![j] + rest;
    assert forall|k: int| 0 <= k < a.len() implies #[trigger] shows_node(nodes, book_slug, a, idx, k) by {
        if k > 0 {
            assert(shows_node(nodes, book_slug, tail, rest, k - 1));
            assert(idx[k] == rest[k - 1]);
            assert(a[k] == tail[k - 1]);
        }
    }
    assert forall|k: int| 0 <= k < a.len() - 1 implies #[trigger] next_is_parent(nodes, idx, k) by {
        if k == 0 {
            assert(idx[1] == rest[0]);
            assert(shows_node(nodes, book_slug, tail, rest, 0));
        } else {
            assert(next_is_parent(nodes, rest, k - 1));
            assert(idx[k] == rest[k - 1]);
            assert(idx[k + 1] == rest[k]);
        }
    }
    if tail.len() > 0 {
        assert(idx[a.len() - 1] == rest[tail.len() - 1]);
    }
}

proof fn lemma_first_match(nodes: Seq<KbNode>, id: i64, m: int)
    requires
        0 <= m < nodes.len(),
        nodes[m].id == id,
    ensures
        exists|j: int|
            0 <= j < nodes.len() && nodes[j].id == id && forall|k: int| 0 <= k < j ==> nodes[k].id != id,
    decreases m,
{
    if exists|k: int| 0 <= k < m && nodes[k].id == id {
        let k = choose|k: int| 0 <= k < m && nodes[k].id == id;
        lemma_first_match(nodes, id, k);
    } else {
        assert(forall|k: int| 0 <= k < m ==> nodes[k].id != id);
    }
}

/// Where `node_index` finds a node, that node has the id.
proof fn lemma_node_index_found(nodes: Seq<KbNode>, id: i64)
    ensures
        node_index(nodes, id) matches Some(j) ==> 0 <= j < nodes.len() && nodes[j].id == id,
{
    if exists|j: int| 0 <= j < nodes.len() && nodes[j].id == id {
        let m = choose|j: int| 0 <= j < nodes.len() && nodes[j].id == id;
        lemma_first_match(nodes, id, m);
    }
}

#[verifier::spinoff_prover]
#[verifier::rlimit(100)]
proof fn lemma_ancestors_chain(nodes: Seq<KbNode>, cur: Option<i64>, g: nat, book_slug: Seq<char>) -> (idx:
    Seq<int>)
    requires
        g <= CRUMB_GUARD,
    ensures
        up_chain(nodes, cur, g, book_slug, ancestors_from(nodes, cur, g, book_slug), idx),
    decreases 65 - g,
{
    match cur {
        None => {
            lemma_chain_empty(nodes, cur, g, book_slug);
            Seq::empty()
        },
        Some(pid) => if g + 1 > CRUMB_GUARD || g >= 65 {
            lemma_chain_empty(nodes, cur, g, book_slug);
            Seq::empty()
        } else {
            match node_index(nodes, pid) {
                None => {
                    lemma_chain_empty(nodes, cur, g, book_slug);
                    Seq::empty()
                },
                Some(j) => {
                    lemma_node_index_found(nodes, pid);
                    let rest = lemma_ancestors_chain(nodes, nodes[j].parent_id, g + 1, book_slug);
                    let tail = ancestors_from(nodes, nodes[j].parent_id, g + 1, book_slug);
                    lemma_chain_step(nodes, pid, j, g, book_slug, tail, rest);
                    assert(ancestors_from(nodes, cur, g, book_slug) == seq![
                        node_crumb(nodes[j], book_slug),
                    ] + tail);
                    seq![j] + rest
                },
            }
        },
    }
}

/// The breadcrumb trail runs root first: its first crumb is the topmost
/// ancestor the walk reaches, each crumb's node is the parent of the next
/// crumb's node, and the last crumb is the node's own parent.
pub proof fn law_breadcrumbs_root_first(nodes: Seq<KbNode>, node: KbNode, book_slug: Seq<char>)
    ensures
        exists|idx: Seq<int>|
            root_first_trail(nodes, node, book_slug, breadcrumbs_spec(nodes, node, book_slug), idx),
{
    let up = lemma_ancestors_chain(nodes, node.parent_id, 0, book_slug);
    let a = ancestors_from(nodes, node.parent_id, 0, book_slug);
    reveal(up_chain);
    let r = breadcrumbs_spec(nodes, node, book_slug);
    let n = a.len() as int;
    let idx = up.reverse();
    assert(r == a.reverse());
    assert forall|k: int| 0 <= k < r.len() implies #[trigger] shows_node(nodes, book_slug, r, idx, k) by {
        assert(shows_node(nodes, book_slug, a, up, n - 1 - k));
        assert(idx[k] == up[n - 1 - k]);
        assert(r[k] == a[n - 1 - k]);
    }
    assert forall|k: int| 0 <= k < r.len() - 1 implies #[trigger] parent_of_next(nodes, idx, k) by {
        assert(next_is_parent(nodes, up, n - 2 - k));
        assert(idx[k] == up[n - 1 - k]);
        assert(idx[k + 1] == up[n - 2 - k]);
    }
    if n > 0 {
        assert(idx[n - 1] == up[0]);
        assert(idx[0] == up[n - 1]);
        assert(shows_node(nodes, book_slug, a, up, 0));
    }
    assert(root_first_trail(nodes, node, book_slug, r, idx));
}

#[verifier::rlimit(40)]
pub fn kb_breadcrumbs(nodes: &Vec<KbNode>, node: &KbNode, book_slug: &str) -> (r: Vec<KbCrumb>)
    ensures
        crumb_models(r@) == breadcrumbs_spec(nodes@, *node, book_slug@),
{
    let mut crumbs: Vec<KbCrumb> = Vec::new();
    let mut cur = node.parent_id;
    let mut guard: usize = 0;
    loop
        invariant
            guard <= CRUMB_GUARD,
            crumb_models(crumbs@) + ancestors_from(nodes@, cur, guard as nat, book_slug@)
                == ancestors_from(nodes@, node.parent_id, 0, book_slug@),
        ensures
            crumb_models(crumbs@) == ancestors_from(nodes@, node.parent_id, 0, book_slug@),
        decreases CRUMB_GUARD - guard,
    {
        match cur {
            None => {
                assert(crumb_models(crumbs@) + Seq::<CrumbModel>::empty() =~= crumb_models(
                    crumbs@,
                ));
                break;
            },
            Some(pid) => {
                if guard + 1 > CRUMB_GUARD {
                    assert(crumb_models(crumbs@) + Seq::<CrumbModel>::empty() =~= crumb_models(
                        crumbs@,
                    ));
                    break;
                }
                match find_node(nodes, pid) {
                    None => {
                        assert(crumb_models(crumbs@) + Seq::<CrumbModel>::empty()
                            =~= crumb_models(crumbs@));
                        break;
                    },
                    Some(j) => {
                        let p = &nodes[j];
                        let mut href = string_of("/docs/");
                        push_str(&mut href, book_slug);
                        push_str(&mut href, "/");
                        push_str(&mut href, p.slug.as_str());
                        let c = KbCrumb { title: p.title.clone(), href: Some(href) };
                        let ghost prev = crumbs@;
                        crumbs.push(c);
                        assert(crumb_models(crumbs@) =~= crumb_models(prev).push(crumb_model(c)));
                        assert(crumb_models(prev) + ancestors_from(
                            nodes@,
                            cur,
                            guard as nat,
                            book_slug@,
                        ) =~= crumb_models(crumbs@) + ancestors_from(
                            nodes@,
                            p.parent_id,
                            (guard + 1) as nat,
                            book_slug@,
                        ));
                        cur = p.parent_id;
                        guard = guard + 1;
                    },
                }
            },
        }
    }
    let ghost fwd = crumb_models(crumbs@);
    let ghost orig = crumbs@;
    let mut out: Vec<KbCrumb> = Vec::new();
    while crumbs.len() > 0
        invariant
            crumbs@ == orig.take(crumbs@.len() as int),
            crumbs@.len() <= orig.len(),
            fwd == crumb_models(orig),
            crumb_models(out@) == fwd.subrange(crumbs@.len() as int, fwd.len() as int).reverse(),
        decreases crumbs.len(),
    {
        let ghost before = crumbs@;
        let ghost prev = out@;
        let c = crumbs.pop().unwrap();
        out.push(c);
        assert(crumbs@ =~= orig.take(crumbs@.len() as int));
        assert(crumb_models(out@) =~= crumb_models(prev).push(crumb_model(c)));
        assert(fwd[crumbs@.len() as int] == crumb_model(c));
        assert(fwd.subrange(crumbs@.len() as int, fwd.len() as int).reverse() =~= fwd.subrange(
            crumbs@.len() + 1int,
            fwd.len() as int,
        ).reverse().push(fwd[crumbs@.len() as int]));
    }
    assert(fwd.subrange(0, fwd.len() as int) =~= fwd);
    out
}

/// The documents of a forest with a slug, in reading order (each node
/// before what is under it).
pub open spec fn flat_forest(f: Seq<KbTreeModel>) -> Seq<(i64, Seq<char>, Seq<char>)>
    decreases f,
{
    if f.len() == 0 {
        Seq::empty()
    } else {
        flat_forest(f.drop_last()) + flat_node(f.last())
    }
}

pub open spec fn flat_node(t: KbTreeModel) -> Seq<(i64, Seq<char>, Seq<char>)>
    decreases t,
{
    (if t.node_type == "doc"@ && t.slug.len() > 0 {
        seq![(t.id, t.title, t.slug)]
    } else {
        Seq::empty()
    }) + flat_forest(t.children)
}

pub open spec fn flat_models(v: Seq<(i64, String, String)>) -> Seq<(i64, Seq<char>, Seq<char>)> {
    v.map_values(|e: (i64, String, String)| (e.0, e.1@, e.2@))
}

fn flatten_forest(f: &Vec<KbTreeNode>, out: &mut Vec<(i64, String, String)>)
    ensures
        flat_models(final(out)@) == flat_models(old(out)@) + flat_forest(forest_view(f@)),
    decreases f@,
{
    let mut i: usize = 0;
    assert(f@.take(0) =~= Seq::<KbTreeNode>::empty());
    while i < f.len()
        invariant
            0 <= i <= f.len(),
            flat_models(out@) == flat_models(old(out)@) + flat_forest(
                forest_view(f@.take(i as int)),
            ),
        decreases f.len() - i,
    {
        proof {
            assert(f@.take(i + 1) =~= f@.take(i as int).push(f@[i as int]));
            lemma_forest_view_push(f@.take(i as int), f@[i as int]);
            let fv = forest_view(f@.take(i as int)).push(tree_view(f@[i as int]));
            assert(fv.drop_last() =~= forest_view(f@.take(i as int)));
        }
        flatten_node(&f[i], out);
        i = i + 1;
    }
    assert(f@.take(f@.len() as int) =~= f@);
}

fn flatten_node(t: &KbTreeNode, out: &mut Vec<(i64, String, String)>)
    ensures
        flat_models(final(out)@) == flat_models(old(out)@) + flat_node(tree_view(*t)),
    decreases *t,
{
    let ghost start = flat_models(out@);
    if t.is_doc() && chars_of(t.slug.as_str()).len() > 0 {
        let e = (t.id, t.title.clone(), t.slug.clone());
        let ghost prev = out@;
        out.push(e);
        assert(flat_models(out@) =~= flat_models(prev).push((e.0, e.1@, e.2@)));
    }
    let ghost mid = flat_models(out@);
    flatten_forest(&t.children, out);
    proof {
        let head: Seq<(i64, Seq<char>, Seq<char>)> = if t.doc() && t.slug@.len() > 0 {
            seq![(t.id, t.title@, t.slug@)]
        } else {
            Seq::empty()
        };
        assert(mid =~= start + head);
        assert(flat_models(out@) =~= start + (head + flat_forest(forest_view(t.children@))));
    }
}

/// The first position of the document `id` in reading order.
pub open spec fn flat_index(flat: Seq<(i64, Seq<char>, Seq<char>)>, id: i64) -> Option<int> {
    if exists|j: int| 0 <= j < flat.len() && flat[j].0 == id {
        Some(
            choose|j: int|
                0 <= j < flat.len() && flat[j].0 == id && forall|k: int|
                    0 <= k < j ==> flat[k].0 != id,
        )
    } else {
        None
    }
}

/// The documents before and after `id` in reading order, as (title, slug).
pub open spec fn neighbors_spec(tree: Seq<KbTreeModel>, id: i64) -> (
    Option<(Seq<char>, Seq<char>)>,
    Option<(Seq<char>, Seq<char>)>,
) {
    let flat = flat_forest(tree);
    match flat_index(flat, id) {
        None => (None, None),
        Some(i) => (
            if i >= 1 {
                Some((flat[i - 1].1, flat[i - 1].2))
            } else {
                None
            },
            if i + 1 < flat.len() {
                Some((flat[i + 1].1, flat[i + 1].2))
            } else {
                None
            },
        ),
    }
}

pub open spec fn pair_model(p: Option<(String, String)>) -> Option<(Seq<char>, Seq<char>)> {
    match p {
        Some((a, b)) => Some((a@, b@)),
        None => None,
    }
}

pub fn kb_page_neighbors(tree: &Vec<KbTreeNode>, current_id: i64) -> (r: (
    Option<(String, String)>,
    Option<(String, String)>,
))
    ensures
        (pair_model(r.0), pair_model(r.1)) == neighbors_spec(forest_view(tree@), current_id),
{
    let mut pages: Vec<(i64, String, String)> = Vec::new();
    flatten_forest(tree, &mut pages);
    assert(flat_models(Seq::<(i64, String, String)>::empty()) =~= Seq::<
        (i64, Seq<char>, Seq<char>),
    >::empty());
    let ghost flat = flat_forest(forest_view(tree@));
    assert(flat_models(pages@) =~= flat);
    let mut i: usize = 0;
    while i < pages.len()
        invariant
            0 <= i <= pages.len(),
            flat_models(pages@) == flat,
            flat == flat_forest(forest_view(tree@)),
            forall|k: int| 0 <= k < i ==> flat[k].0 != current_id,
        decreases pages.len() - i,
    {
        assert(flat[i as int].0 == pages@[i as int].0);
        if pages[i].0 == current_id {
            proof {
                assert(0 <= i < flat.len() && flat[i as int].0 == current_id);
                let c = choose|m: int|
                    0 <= m < flat.len() && flat[m].0 == current_id && forall|k: int|
                        0 <= k < m ==> flat[k].0 != current_id;
                assert(flat[i as int].0 == current_id);
                if c < i {
                    assert(flat[c].0 != current_id);
                }
                if i < c {
                    assert(flat[i as int].0 != current_id);
                }
                assert(flat_index(flat, current_id) == Some(i as int));
            }
            let prev = if i >= 1 {
                assert(flat[i - 1] == (pages@[i - 1].0, pages@[i - 1].1@, pages@[i - 1].2@));
                Some((pages[i - 1].1.clone(), pages[i - 1].2.clone()))
            } else {
                None
            };
            let next = if i + 1 < pages.len() {
                assert(flat[i + 1] == (pages@[i + 1].0, pages@[i + 1].1@, pages@[i + 1].2@));
                Some((pages[i + 1].1.clone(), pages[i + 1].2.clone()))
            } else {
                None
            };
            assert(pair_model(prev) == (if i >= 1 {
                Some((flat[i - 1].1, flat[i - 1].2))
            } else {
                None
            }));
            assert(pair_model(next) == (if i + 1 < flat.len() {
                Some((flat[i + 1].1, flat[i + 1].2))
            } else {
                None
            }));
            return (prev, next);
        }
        i = i + 1;
    }
    proof {
        assert forall|j: int| !(0 <= j < flat.len() && flat[j].0 == current_id) by {
            if 0 <= j < flat.len() {
            }
        }
    }
    (None, None)
}


pub proof fn lemma_forest_view_index(f: Seq<KbTreeNode>, i: int)
    requires
        0 <= i < f.len(),
    ensures
        forest_view(f).len() == f.len(),
        forest_view(f)[i] == tree_view(f[i]),
    decreases f.len(),
{
    lemma_forest_view_len(f);
    if i < f.len() - 1 {
        lemma_forest_view_index(f.drop_last(), i);
    }
}

/// The number of levels of a forest.
pub open spec fn forest_height(f: Seq<KbTreeModel>) -> nat
    decreases f,
{
    if f.len() == 0 {
        0
    } else {
        let a = forest_height(f.drop_last());
        let b = node_height(f.last());
        if a < b {
            b
        } else {
            a
        }
    }
}

pub open spec fn node_height(t: KbTreeModel) -> nat
    decreases t,
{
    1 + forest_height(t.children)
}

pub proof fn lemma_height_item(f: Seq<KbTreeModel>, i: int)
    requires
        0 <= i < f.len(),
    ensures
        node_height(f[i]) <= forest_height(f),
    decreases f.len(),
{
    if i < f.len() - 1 {
        lemma_height_item(f.drop_last(), i);
    }
}

/// A tree node is at most as tall as the forest it stands in.
pub proof fn lemma_height_tree_item(nodes: Seq<KbTreeNode>, i: int)
    requires
        0 <= i < nodes.len(),
    ensures
        node_height(tree_view(nodes[i])) <= forest_height(forest_view(nodes)),
{
    lemma_forest_view_index(nodes, i);
    lemma_height_item(forest_view(nodes), i);
}

} // verus!
