//! Moving a knowledge-base node to another parent or another place among
//! its siblings: the checks a move must pass, the order siblings are listed
//! in, and the new order of the siblings the node lands among.
use vstd::prelude::*;

use crate::kb_tree::{distinct_ids, find_node, node_index};
use crate::models::kb::KbNode;

verus! {

/// Why a move is refused.
#[derive(Debug, Clone, Copy, PartialEq, Eq, Structural)]
pub enum KbMoveError {
    NodeMissing,
    OntoItself,
    ParentMissing,
    ParentInOtherBook,
    IntoOwnSubtree,
    BeforeIsNode,
    BeforeMissing,
    BeforeInOtherBook,
    BeforeUnderOtherParent,
}

impl KbMoveError {
    pub open spec fn text(self) -> Seq<char> {
        match self {
            KbMoveError::NodeMissing => "页面不存在"@,
            KbMoveError::OntoItself => "不能移动到自身"@,
            KbMoveError::ParentMissing => "父节点不存在"@,
            KbMoveError::ParentInOtherBook => "父节点不属于该知识库"@,
            KbMoveError::IntoOwnSubtree => "不能移动到自己的子目录中"@,
            KbMoveError::BeforeIsNode => "无效的插入位置"@,
            KbMoveError::BeforeMissing => "插入位置不存在"@,
            KbMoveError::BeforeInOtherBook => "插入位置不属于该知识库"@,
            KbMoveError::BeforeUnderOtherParent => "插入位置与目标父节点不一致"@,
        }
    }

    /// The message shown for the refusal.
    pub fn message(&self) -> (r: &'static str)
        ensures
            r@ == self.text(),
    {
        match self {
            KbMoveError::NodeMissing => "页面不存在",
            KbMoveError::OntoItself => "不能移动到自身",
            KbMoveError::ParentMissing => "父节点不存在",
            KbMoveError::ParentInOtherBook => "父节点不属于该知识库",
            KbMoveError::IntoOwnSubtree => "不能移动到自己的子目录中",
            KbMoveError::BeforeIsNode => "无效的插入位置",
            KbMoveError::BeforeMissing => "插入位置不存在",
            KbMoveError::BeforeInOtherBook => "插入位置不属于该知识库",
            KbMoveError::BeforeUnderOtherParent => "插入位置与目标父节点不一致",
        }
    }

    /// A missing node is answered as "not found"; every other refusal as a
    /// bad request.
    pub fn is_not_found(&self) -> (r: bool)
        ensures
            r == (*self == KbMoveError::NodeMissing),
    {
        match self {
            KbMoveError::NodeMissing => true,
            _ => false,
        }
    }
}

/// The parent of the node with this id; none for a root or a missing node.
pub open spec fn parent_of(nodes: Seq<KbNode>, id: i64) -> Option<i64> {
    match node_index(nodes, id) {
        Some(j) => nodes[j].parent_id,
        None => None,
    }
}

/// Whether `target` is met walking up the parent links from `from`, in at
/// most `fuel` steps.
pub open spec fn chain_meets(nodes: Seq<KbNode>, from: Option<i64>, target: i64, fuel: nat) -> bool
    decreases fuel,
{
    match from {
        None => false,
        Some(c) => if fuel == 0 {
            false
        } else {
            c == target || chain_meets(nodes, parent_of(nodes, c), target, (fuel - 1) as nat)
        },
    }
}

/// Walks up from `from` looking for `target`, at most one step per node:
/// without a cycle among the parent links that reaches the root.
fn meets_on_way_up(nodes: &Vec<KbNode>, from: i64, target: i64) -> (r: bool)
    ensures
        r == chain_meets(nodes@, Some(from), target, nodes@.len()),
{
    let mut cursor: Option<i64> = Some(from);
    let mut fuel: usize = nodes.len();
    while fuel > 0
        invariant
            chain_meets(nodes@, Some(from), target, nodes@.len()) == chain_meets(
                nodes@,
                cursor,
                target,
                fuel as nat,
            ),
        decreases fuel,
    {
        match cursor {
            None => {
                return false;
            },
            Some(c) => {
                if c == target {
                    return true;
                }
                cursor =
                match find_node(nodes, c) {
                    Some(j) => nodes[j].parent_id,
                    None => None,
                };
                fuel = fuel - 1;
            },
        }
    }
    false
}

/// The first check on the new parent that a move of a node of `book_id`
/// fails, or none.
pub open spec fn parent_refusal(
    nodes: Seq<KbNode>,
    node_id: i64,
    book_id: i64,
    new_parent_id: Option<i64>,
) -> Option<KbMoveError> {
    match new_parent_id {
        None => None,
        Some(pid) => if pid == node_id {
            Some(KbMoveError::OntoItself)
        } else {
            match node_index(nodes, pid) {
                None => Some(KbMoveError::ParentMissing),
                Some(pi) => if nodes[pi].book_id != book_id {
                    Some(KbMoveError::ParentInOtherBook)
                } else if chain_meets(nodes, new_parent_id, node_id, nodes.len()) {
                    Some(KbMoveError::IntoOwnSubtree)
                } else {
                    None
                },
            }
        },
    }
}

/// The first check on the place a node of `book_id` is moved before that a
/// move fails, or none.
pub open spec fn before_refusal(
    nodes: Seq<KbNode>,
    node_id: i64,
    book_id: i64,
    new_parent_id: Option<i64>,
    before_id: Option<i64>,
) -> Option<KbMoveError> {
    match before_id {
        None => None,
        Some(bid) => if bid == node_id {
            Some(KbMoveError::BeforeIsNode)
        } else {
            match node_index(nodes, bid) {
                None => Some(KbMoveError::BeforeMissing),
                Some(bi) => if nodes[bi].book_id != book_id {
                    Some(KbMoveError::BeforeInOtherBook)
                } else if nodes[bi].parent_id != new_parent_id {
                    Some(KbMoveError::BeforeUnderOtherParent)
                } else {
                    None
                },
            }
        },
    }
}

/// The first check a move fails, or none.
pub open spec fn move_refusal(
    nodes: Seq<KbNode>,
    node_id: i64,
    new_parent_id: Option<i64>,
    before_id: Option<i64>,
) -> Option<KbMoveError> {
    match node_index(nodes, node_id) {
        None => Some(KbMoveError::NodeMissing),
        Some(ni) => {
            let book_id = nodes[ni].book_id;
            match parent_refusal(nodes, node_id, book_id, new_parent_id) {
                Some(e) => Some(e),
                None => before_refusal(nodes, node_id, book_id, new_parent_id, before_id),
            }
        },
    }
}

fn check_parent(nodes: &Vec<KbNode>, node_id: i64, book_id: i64, new_parent_id: Option<i64>) -> (r:
    Result<(), KbMoveError>)
    ensures
        match r {
            Ok(()) => parent_refusal(nodes@, node_id, book_id, new_parent_id) is None,
            Err(e) => parent_refusal(nodes@, node_id, book_id, new_parent_id) == Some(e),
        },
{
    if let Some(pid) = new_parent_id {
        if pid == node_id {
            return Err(KbMoveError::OntoItself);
        }
        match find_node(nodes, pid) {
            None => {
                return Err(KbMoveError::ParentMissing);
            },
            Some(pi) => {
                if nodes[pi].book_id != book_id {
                    return Err(KbMoveError::ParentInOtherBook);
                }
            },
        }
        if meets_on_way_up(nodes, pid, node_id) {
            return Err(KbMoveError::IntoOwnSubtree);
        }
    }
    Ok(())
}

fn check_before(
    nodes: &Vec<KbNode>,
    node_id: i64,
    book_id: i64,
    new_parent_id: Option<i64>,
    before_id: Option<i64>,
) -> (r: Result<(), KbMoveError>)
    ensures
        match r {
            Ok(()) => before_refusal(nodes@, node_id, book_id, new_parent_id, before_id) is None,
            Err(e) => before_refusal(nodes@, node_id, book_id, new_parent_id, before_id) == Some(e),
        },
{
    if let Some(bid) = before_id {
        if bid == node_id {
            return Err(KbMoveError::BeforeIsNode);
        }
        match find_node(nodes, bid) {
            None => {
                return Err(KbMoveError::BeforeMissing);
            },
            Some(bi) => {
                if nodes[bi].book_id != book_id {
                    return Err(KbMoveError::BeforeInOtherBook);
                }
                if nodes[bi].parent_id != new_parent_id {
                    return Err(KbMoveError::BeforeUnderOtherParent);
                }
            },
        }
    }
    Ok(())
}

/// Checks a move of `node_id` under `new_parent_id` (the root where none),
/// before `before_id` (at the end where none), against the nodes as they
/// stand.
pub fn check_kb_move(
    nodes: &Vec<KbNode>,
    node_id: i64,
    new_parent_id: Option<i64>,
    before_id: Option<i64>,
) -> (r: Result<(), KbMoveError>)
    ensures
        match r {
            Ok(()) => move_refusal(nodes@, node_id, new_parent_id, before_id) is None,
            Err(e) => move_refusal(nodes@, node_id, new_parent_id, before_id) == Some(e),
        },
{
    let ni = match find_node(nodes, node_id) {
        None => {
            return Err(KbMoveError::NodeMissing);
        },
        Some(ni) => ni,
    };
    let book_id = nodes[ni].book_id;
    check_parent(nodes, node_id, book_id, new_parent_id)?;
    check_before(nodes, node_id, book_id, new_parent_id, before_id)
}

// ---------------------------------------------------------------------------
// The order of siblings
// ---------------------------------------------------------------------------

pub open spec fn is_sibling(n: KbNode, book_id: i64, parent_id: Option<i64>) -> bool {
    n.book_id == book_id && n.parent_id == parent_id
}

/// Siblings are listed by sort order, then by id.
pub open spec fn listed_before(a: KbNode, b: KbNode) -> bool {
    a.sort_order < b.sort_order || (a.sort_order == b.sort_order && a.id < b.id)
}

/// The node with this id.
pub open spec fn node_of(nodes: Seq<KbNode>, id: i64) -> KbNode {
    nodes[node_index(nodes, id)->0]
}

/// `s` lists the ids of the nodes of `book_id` under `parent_id`, each once,
/// in the order siblings are listed in.
pub open spec fn is_sibling_order(
    nodes: Seq<KbNode>,
    book_id: i64,
    parent_id: Option<i64>,
    s: Seq<i64>,
) -> bool {
    &&& forall|i: int|
        0 <= i < s.len() ==> node_index(nodes, #[trigger] s[i]) is Some && is_sibling(
            node_of(nodes, s[i]),
            book_id,
            parent_id,
        )
    &&& forall|j: int|
        0 <= j < nodes.len() && is_sibling(#[trigger] nodes[j], book_id, parent_id) ==> s.contains(
            nodes[j].id,
        )
    &&& forall|i: int, k: int|
        0 <= i < k < s.len() ==> listed_before(
            node_of(nodes, #[trigger] s[i]),
            node_of(nodes, #[trigger] s[k]),
        )
}

pub proof fn lemma_node_index_of(nodes: Seq<KbNode>, j: int)
    requires
        distinct_ids(nodes),
        0 <= j < nodes.len(),
    ensures
        node_index(nodes, nodes[j].id) == Some(j),
{
    let id = nodes[j].id;
    assert(exists|m: int| 0 <= m < nodes.len() && nodes[m].id == id);
    let c = choose|m: int|
        0 <= m < nodes.len() && nodes[m].id == id && forall|k: int| 0 <= k < m ==> nodes[k].id != id;
    if c != j {
        assert(nodes[c].id != nodes[j].id);
    }
    assert(exists|m: int|
        0 <= m < nodes.len() && nodes[m].id == id && forall|k: int| 0 <= k < m ==> nodes[k].id != id)
        by {
        assert(forall|k: int| 0 <= k < j ==> nodes[k].id != id);
    }
}

fn listed_before_exec(a: &KbNode, b: &KbNode) -> (r: bool)
    ensures
        r == listed_before(*a, *b),
{
    a.sort_order < b.sort_order || (a.sort_order == b.sort_order && a.id < b.id)
}

fn sibling_positions(nodes: &Vec<KbNode>, book_id: i64, parent_id: Option<i64>) -> (r: Vec<usize>)
    requires
        distinct_ids(nodes@),
    ensures
        forall|i: int|
            0 <= i < r.len() ==> r@[i] < nodes.len() && is_sibling(
                nodes@[r@[i] as int],
                book_id,
                parent_id,
            ),
        forall|j: int|
            0 <= j < nodes.len() && is_sibling(nodes@[j], book_id, parent_id) ==> r@.contains(
                j as usize,
            ),
        forall|i: int, k: int|
            0 <= i < k < r.len() ==> listed_before(nodes@[r@[i] as int], nodes@[r@[k] as int]),
{
    let mut r: Vec<usize> = Vec::new();
    let mut j: usize = 0;
    while j < nodes.len()
        invariant
            0 <= j <= nodes.len(),
            distinct_ids(nodes@),
            forall|i: int|
                0 <= i < r.len() ==> r@[i] < j && is_sibling(nodes@[r@[i] as int], book_id, parent_id),
            forall|m: int|
                0 <= m < j && is_sibling(nodes@[m], book_id, parent_id) ==> r@.contains(m as usize),
            forall|i: int, k: int|
                0 <= i < k < r.len() ==> listed_before(nodes@[r@[i] as int], nodes@[r@[k] as int]),
        decreases nodes.len() - j,
    {
        if nodes[j].book_id == book_id && nodes[j].parent_id == parent_id {
            let mut p: usize = 0;
            while p < r.len() && !listed_before_exec(&nodes[j], &nodes[r[p]])
                invariant
                    0 <= p <= r.len(),
                    j < nodes.len(),
                    forall|i: int| 0 <= i < r.len() ==> r@[i] < j,
                    forall|k: int|
                        0 <= k < p ==> !listed_before(nodes@[j as int], nodes@[r@[k] as int]),
                decreases r.len() - p,
            {
                p = p + 1;
            }
            let ghost old_r = r@;
            r.insert(p, j);
            proof {
                old_r.insert_ensures(p as int, j);
                assert forall|i: int, k: int| 0 <= i < k < r.len() implies listed_before(
                    nodes@[r@[i] as int],
                    nodes@[r@[k] as int],
                ) by {
                    if k < p {
                        assert(r@[i] == old_r[i] && r@[k] == old_r[k]);
                    } else if k == p {
                        assert(r@[i] == old_r[i]);
                        assert(!listed_before(nodes@[j as int], nodes@[old_r[i] as int]));
                        assert(nodes@[j as int].id != nodes@[old_r[i] as int].id);
                    } else if i == p {
                        assert(r@[k] == old_r[k - 1]);
                        assert(listed_before(nodes@[j as int], nodes@[old_r[p as int] as int]));
                        if k - 1 > p {
                            assert(listed_before(
                                nodes@[old_r[p as int] as int],
                                nodes@[old_r[k - 1] as int],
                            ));
                        }
                    } else if i < p {
                        assert(r@[i] == old_r[i] && r@[k] == old_r[k - 1]);
                    } else {
                        assert(r@[i] == old_r[i - 1] && r@[k] == old_r[k - 1]);
                    }
                }
                assert forall|m: int|
                    0 <= m < j + 1 && is_sibling(
                        nodes@[m],
                        book_id,
                        parent_id,
                    ) implies r@.contains(m as usize) by {
                    if m == j {
                        assert(r@[p as int] == j);
                    } else {
                        assert(old_r.contains(m as usize));
                        let q = choose|q: int| 0 <= q < old_r.len() && old_r[q] == m as usize;
                        if q < p {
                            assert(r@[q] == m as usize);
                        } else {
                            assert(r@[q + 1] == m as usize);
                        }
                    }
                }
                assert forall|i: int| 0 <= i < r.len() implies r@[i] < j + 1 && is_sibling(
                    nodes@[r@[i] as int],
                    book_id,
                    parent_id,
                ) by {
                    if i < p {
                        assert(r@[i] == old_r[i]);
                    } else if i > p {
                        assert(r@[i] == old_r[i - 1]);
                    }
                }
            }
        }
        j = j + 1;
    }
    r
}

/// The ids of the nodes of `book_id` under `parent_id` (the root where
/// none), in the order siblings are listed in.
pub fn sibling_ids(nodes: &Vec<KbNode>, book_id: i64, parent_id: Option<i64>) -> (r: Vec<i64>)
    requires
        distinct_ids(nodes@),
    ensures
        is_sibling_order(nodes@, book_id, parent_id, r@),
{
    let pos = sibling_positions(nodes, book_id, parent_id);
    let mut r: Vec<i64> = Vec::new();
    let mut i: usize = 0;
    while i < pos.len()
        invariant
            0 <= i <= pos.len(),
            r.len() == i,
            forall|m: int| 0 <= m < i ==> r@[m] == nodes@[pos@[m] as int].id,
            forall|m: int| 0 <= m < pos.len() ==> pos@[m] < nodes.len(),
        decreases pos.len() - i,
    {
        r.push(nodes[pos[i]].id);
        i = i + 1;
    }
    proof {
        assert forall|m: int| 0 <= m < r.len() implies node_of(nodes@, r@[m]) == nodes@[pos@[m] as int]
            && node_index(nodes@, r@[m]) is Some by {
            lemma_node_index_of(nodes@, pos@[m] as int);
        }
        assert forall|jj: int|
            0 <= jj < nodes.len() && is_sibling(
                #[trigger] nodes@[jj],
                book_id,
                parent_id,
            ) implies r@.contains(nodes@[jj].id) by {
            assert(pos@.contains(jj as usize));
            let q = choose|q: int| 0 <= q < pos.len() && pos@[q] == jj as usize;
            assert(r@[q] == nodes@[jj].id);
        }
        assert forall|a: int, b: int| 0 <= a < b < r.len() implies listed_before(
            node_of(nodes@, #[trigger] r@[a]),
            node_of(nodes@, #[trigger] r@[b]),
        ) by {
            assert(node_of(nodes@, r@[a]) == nodes@[pos@[a] as int]);
            assert(node_of(nodes@, r@[b]) == nodes@[pos@[b] as int]);
        }
    }
    r
}


// ---------------------------------------------------------------------------
// The new order
// ---------------------------------------------------------------------------

/// `s` without `x`.
pub open spec fn without(s: Seq<i64>, x: i64) -> Seq<i64>
    decreases s.len(),
{
    if s.len() == 0 {
        s
    } else if s.last() == x {
        without(s.drop_last(), x)
    } else {
        without(s.drop_last(), x).push(s.last())
    }
}

/// The first position of `x` in `s`.
pub open spec fn first_pos(s: Seq<i64>, x: i64) -> Option<int> {
    if s.contains(x) {
        Some(choose|k: int| 0 <= k < s.len() && s[k] == x && forall|m: int| 0 <= m < k ==> s[m] != x)
    } else {
        None
    }
}

/// Where a moved node lands among the others: before `before_id` where it
/// is among them, at the end otherwise.
pub open spec fn landing_index(rest: Seq<i64>, before_id: Option<i64>) -> int {
    match before_id {
        Some(b) => match first_pos(rest, b) {
            Some(k) => k,
            None => rest.len() as int,
        },
        None => rest.len() as int,
    }
}

/// The siblings after `node_id` is moved among `s`.
pub open spec fn moved_order(s: Seq<i64>, node_id: i64, before_id: Option<i64>) -> Seq<i64> {
    let rest = without(s, node_id);
    rest.insert(landing_index(rest, before_id), node_id)
}

/// Whether a move within the same parent leaves the node where it is.
pub open spec fn keeps_place(s: Seq<i64>, node_id: i64, before_id: Option<i64>) -> bool {
    match first_pos(s, node_id) {
        None => false,
        Some(c) => {
            let t = match before_id {
                Some(b) => first_pos(s, b),
                None => Some(s.len() as int),
            };
            match t {
                None => false,
                Some(t) => (if t > c {
                    t - 1
                } else {
                    t
                }) == c,
            }
        },
    }
}

pub fn first_index(s: &Vec<i64>, x: i64) -> (r: Option<usize>)
    ensures
        match r {
            Some(k) => first_pos(s@, x) == Some(k as int) && k < s.len(),
            None => first_pos(s@, x) is None,
        },
{
    let mut k: usize = 0;
    while k < s.len()
        invariant
            0 <= k <= s.len(),
            forall|m: int| 0 <= m < k ==> s@[m] != x,
        decreases s.len() - k,
    {
        if s[k] == x {
            proof {
                let c = choose|c: int|
                    0 <= c < s@.len() && s@[c] == x && forall|m: int| 0 <= m < c ==> s@[m] != x;
                assert(s@[k as int] == x);
                if c < k {
                    assert(s@[c] != x);
                }
                if k < c {
                    assert(s@[k as int] != x);
                }
            }
            return Some(k);
        }
        k = k + 1;
    }
    None
}

pub fn without_exec(s: &Vec<i64>, x: i64) -> (r: Vec<i64>)
    ensures
        r@ == without(s@, x),
{
    let mut r: Vec<i64> = Vec::new();
    let mut i: usize = 0;
    assert(s@.take(0) =~= Seq::<i64>::empty());
    while i < s.len()
        invariant
            0 <= i <= s.len(),
            r@ == without(s@.take(i as int), x),
        decreases s.len() - i,
    {
        assert(s@.take(i + 1).drop_last() =~= s@.take(i as int));
        if s[i] != x {
            r.push(s[i]);
        }
        i = i + 1;
    }
    assert(s@.take(s@.len() as int) =~= s@);
    r
}

/// The siblings after `node_id` is moved before `before_id` (to the end
/// where none, or where it is not among them).
pub fn reorder_siblings(siblings: &Vec<i64>, node_id: i64, before_id: Option<i64>) -> (r: Vec<i64>)
    ensures
        r@ == moved_order(siblings@, node_id, before_id),
{
    let mut rest = without_exec(siblings, node_id);
    let at: usize = match before_id {
        Some(b) => match first_index(&rest, b) {
            Some(k) => k,
            None => rest.len(),
        },
        None => rest.len(),
    };
    rest.insert(at, node_id);
    rest
}

/// Whether moving `node_id` before `before_id` among its own siblings
/// leaves it where it is.
pub fn move_keeps_place(siblings: &Vec<i64>, node_id: i64, before_id: Option<i64>) -> (r: bool)
    ensures
        r == keeps_place(siblings@, node_id, before_id),
{
    let c = match first_index(siblings, node_id) {
        None => {
            return false;
        },
        Some(c) => c,
    };
    let t = match before_id {
        Some(b) => first_index(siblings, b),
        None => Some(siblings.len()),
    };
    match t {
        None => false,
        Some(t) => {
            let desired = if t > c {
                t - 1
            } else {
                t
            };
            desired == c
        },
    }
}

/// The new sibling orders a move writes: the siblings it lands among, and,
/// where it changes parent, those it leaves.
#[derive(Debug)]
pub struct KbMovePlan {
    pub target_order: Vec<i64>,
    pub old_parent_order: Option<Vec<i64>>,
}

/// What a move writes, given the order of the siblings under the new parent
/// and under the old one: nothing where the node keeps its place.
pub open spec fn plan_fits(
    r: Option<KbMovePlan>,
    node_id: i64,
    old_parent_id: Option<i64>,
    new_parent_id: Option<i64>,
    before_id: Option<i64>,
    s_new: Seq<i64>,
    s_old: Seq<i64>,
) -> bool {
    if old_parent_id == new_parent_id && keeps_place(s_new, node_id, before_id) {
        r is None
    } else {
        &&& r is Some
        &&& r->0.target_order@ == moved_order(s_new, node_id, before_id)
        &&& match r->0.old_parent_order {
            Some(v) => old_parent_id != new_parent_id && v@ == without(s_old, node_id),
            None => old_parent_id == new_parent_id,
        }
    }
}

/// Plans a move of `node_id` under `new_parent_id` before `before_id`: the
/// refusal where a check fails; otherwise nothing where the node stays
/// where it is, or the new orders to write.
pub fn plan_kb_move(
    nodes: &Vec<KbNode>,
    node_id: i64,
    new_parent_id: Option<i64>,
    before_id: Option<i64>,
) -> (r: Result<Option<KbMovePlan>, KbMoveError>)
    requires
        distinct_ids(nodes@),
    ensures
        match r {
            Err(e) => move_refusal(nodes@, node_id, new_parent_id, before_id) == Some(e),
            Ok(p) => {
                &&& move_refusal(nodes@, node_id, new_parent_id, before_id) is None
                &&& exists|s_new: Seq<i64>, s_old: Seq<i64>|
                    #![trigger plan_fits(p, node_id, node_of(nodes@, node_id).parent_id, new_parent_id, before_id, s_new, s_old)]
                    is_sibling_order(nodes@, node_of(nodes@, node_id).book_id, new_parent_id, s_new)
                        && is_sibling_order(
                        nodes@,
                        node_of(nodes@, node_id).book_id,
                        node_of(nodes@, node_id).parent_id,
                        s_old,
                    ) && plan_fits(
                        p,
                        node_id,
                        node_of(nodes@, node_id).parent_id,
                        new_parent_id,
                        before_id,
                        s_new,
                        s_old,
                    )
            },
        },
{
    check_kb_move(nodes, node_id, new_parent_id, before_id)?;
    let ni = match find_node(nodes, node_id) {
        Some(ni) => ni,
        None => {
            return Err(KbMoveError::NodeMissing);
        },
    };
    let book_id = nodes[ni].book_id;
    let old_parent_id = nodes[ni].parent_id;
    let s_new = sibling_ids(nodes, book_id, new_parent_id);
    let s_old = sibling_ids(nodes, book_id, old_parent_id);
    let same = old_parent_id == new_parent_id;
    let r = if same && move_keeps_place(&s_new, node_id, before_id) {
        None
    } else {
        let target_order = reorder_siblings(&s_new, node_id, before_id);
        let old_parent_order = if same {
            None
        } else {
            Some(without_exec(&s_old, node_id))
        };
        Some(KbMovePlan { target_order, old_parent_order })
    };
    assert(plan_fits(r, node_id, old_parent_id, new_parent_id, before_id, s_new@, s_old@));
    Ok(r)
}


// ---------------------------------------------------------------------------
// Laws
// ---------------------------------------------------------------------------

proof fn lemma_without_add(a: Seq<i64>, b: Seq<i64>, x: i64)
    ensures
        without(a + b, x) == without(a, x) + without(b, x),
    decreases b.len(),
{
    if b.len() == 0 {
        assert(a + b =~= a);
        assert(without(a, x) + without(b, x) =~= without(a, x));
    } else {
        assert((a + b).drop_last() =~= a + b.drop_last());
        assert((a + b).last() == b.last());
        lemma_without_add(a, b.drop_last(), x);
        if b.last() != x {
            assert(without(a, x) + without(b.drop_last(), x).push(b.last()) =~= (without(a, x)
                + without(b.drop_last(), x)).push(b.last()));
        }
    }
}

proof fn lemma_without_contains(s: Seq<i64>, x: i64, y: i64)
    ensures
        without(s, x).contains(y) <==> (s.contains(y) && y != x),
    decreases s.len(),
{
    if s.len() > 0 {
        lemma_without_contains(s.drop_last(), x, y);
        let w = without(s.drop_last(), x);
        if s.contains(y) && y != x {
            let k = choose|k: int| 0 <= k < s.len() && s[k] == y;
            if k < s.len() - 1 {
                assert(s.drop_last()[k] == y);
            }
            if s.last() != x {
                if k < s.len() - 1 {
                    let q = choose|q: int| 0 <= q < w.len() && w[q] == y;
                    assert(w.push(s.last())[q] == y);
                } else {
                    assert(w.push(s.last())[w.len() as int] == y);
                }
            }
        }
        if without(s, x).contains(y) {
            let q = choose|q: int| 0 <= q < without(s, x).len() && without(s, x)[q] == y;
            if s.last() != x && q == w.len() {
                assert(s[s.len() - 1] == y);
            } else {
                assert(w[q] == y);
                let k = choose|k: int| 0 <= k < s.drop_last().len() && s.drop_last()[k] == y;
                assert(s[k] == y);
            }
        }
    }
}

proof fn lemma_without_absent(s: Seq<i64>, x: i64)
    requires
        !s.contains(x),
    ensures
        without(s, x) == s,
    decreases s.len(),
{
    if s.len() > 0 {
        assert(s[s.len() - 1] == s.last());
        if s.drop_last().contains(x) {
            let k = choose|k: int| 0 <= k < s.drop_last().len() && s.drop_last()[k] == x;
            assert(s[k] == x);
        }
        lemma_without_absent(s.drop_last(), x);
        assert(s.drop_last().push(s.last()) =~= s);
    }
}

proof fn lemma_first_exists(s: Seq<i64>, x: i64)
    requires
        s.contains(x),
    ensures
        exists|k: int| 0 <= k < s.len() && s[k] == x && forall|m: int| 0 <= m < k ==> s[m] != x,
    decreases s.len(),
{
    let d = s.drop_last();
    if d.contains(x) {
        lemma_first_exists(d, x);
        let k = choose|k: int| 0 <= k < d.len() && d[k] == x && forall|m: int| 0 <= m < k ==> d[m] != x;
        assert(s[k] == x);
        assert forall|m: int| 0 <= m < k implies s[m] != x by {
            assert(d[m] != x);
        }
    } else {
        let k = s.len() - 1;
        assert(s[k] == x) by {
            let j = choose|j: int| 0 <= j < s.len() && s[j] == x;
            if j < k {
                assert(d[j] == x);
            }
        }
        assert forall|m: int| 0 <= m < k implies s[m] != x by {
            if s[m] == x {
                assert(d[m] == x);
            }
        }
    }
}

proof fn lemma_first_pos_is(s: Seq<i64>, x: i64, k: int)
    requires
        0 <= k < s.len(),
        s[k] == x,
        forall|m: int| 0 <= m < k ==> s[m] != x,
    ensures
        first_pos(s, x) == Some(k),
{
    assert(s.contains(x));
    let c = choose|c: int| 0 <= c < s.len() && s[c] == x && forall|m: int| 0 <= m < c ==> s[m] != x;
    if c < k {
        assert(s[c] != x);
    }
    if k < c {
        assert(s[k] != x);
    }
}

proof fn lemma_without_insert(rest: Seq<i64>, at: int, x: i64)
    requires
        !rest.contains(x),
        0 <= at <= rest.len(),
    ensures
        without(rest.insert(at, x), x) == rest,
{
    let pre = rest.subrange(0, at);
    let post = rest.subrange(at, rest.len() as int);
    assert(rest.insert(at, x) =~= pre + seq![x] + post);
    assert(!pre.contains(x)) by {
        if pre.contains(x) {
            let k = choose|k: int| 0 <= k < pre.len() && pre[k] == x;
            assert(rest[k] == x);
        }
    }
    assert(!post.contains(x)) by {
        if post.contains(x) {
            let k = choose|k: int| 0 <= k < post.len() && post[k] == x;
            assert(rest[at + k] == x);
        }
    }
    lemma_without_add(pre + seq![x], post, x);
    lemma_without_add(pre, seq![x], x);
    lemma_without_absent(pre, x);
    lemma_without_absent(post, x);
    assert(seq![x].drop_last() =~= Seq::<i64>::empty());
    assert(without(seq![x], x) == without(seq![x].drop_last(), x));
    assert(without(seq![x], x) =~= Seq::<i64>::empty());
    assert(pre + Seq::<i64>::empty() + post =~= rest);
}

/// A moved node stands exactly once among its new siblings, at its landing
/// place: directly before `before_id` where that is among them, last
/// otherwise; the other siblings keep their order.
pub proof fn law_moved_order(s: Seq<i64>, node_id: i64, before_id: Option<i64>)
    ensures
        ({
            let rest = without(s, node_id);
            let r = moved_order(s, node_id, before_id);
            let at = landing_index(rest, before_id);
            &&& r.len() == rest.len() + 1
            &&& !rest.contains(node_id)
            &&& r[at] == node_id
            &&& without(r, node_id) == rest
            &&& (match before_id {
                Some(b) => rest.contains(b) ==> r[at + 1] == b,
                None => r.last() == node_id,
            })
        }),
{
    let rest = without(s, node_id);
    let at = landing_index(rest, before_id);
    lemma_without_contains(s, node_id, node_id);
    let r = rest.insert(at, node_id);
    match before_id {
        Some(b) => {
            if rest.contains(b) {
                lemma_first_exists(rest, b);
                let c = first_pos(rest, b)->0;
                assert(0 <= c < rest.len() && rest[c] == b);
                assert(at == c);
                rest.insert_ensures(at, node_id);
                assert(r[at + 1] == rest[at]);
            } else {
                assert(at == rest.len());
                rest.insert_ensures(at, node_id);
            }
        },
        None => {
            assert(at == rest.len());
            rest.insert_ensures(at, node_id);
        },
    }
    lemma_without_insert(rest, at, node_id);
}

/// A move among the same siblings that the no-op check lets pass changes
/// nothing: the new order is the old one. (A node is never moved before
/// itself: that move is refused.)
pub proof fn law_keeps_place_is_noop(s: Seq<i64>, node_id: i64, before_id: Option<i64>)
    requires
        s.no_duplicates(),
        before_id != Some(node_id),
        keeps_place(s, node_id, before_id),
    ensures
        moved_order(s, node_id, before_id) == s,
{
    let c = first_pos(s, node_id)->0;
    assert(0 <= c < s.len() && s[c] == node_id);
    let pre = s.subrange(0, c);
    let post = s.subrange(c + 1, s.len() as int);
    assert(s =~= pre + seq![node_id] + post);
    assert(!pre.contains(node_id)) by {
        if pre.contains(node_id) {
            let k = choose|k: int| 0 <= k < pre.len() && pre[k] == node_id;
            assert(s[k] == node_id);
        }
    }
    assert(!post.contains(node_id)) by {
        if post.contains(node_id) {
            let k = choose|k: int| 0 <= k < post.len() && post[k] == node_id;
            assert(s[c + 1 + k] == node_id);
        }
    }
    assert(pre + post =~= (pre + post).insert(c, node_id).remove(c));
    assert(s =~= (pre + post).insert(c, node_id));
    assert(!(pre + post).contains(node_id)) by {
        if (pre + post).contains(node_id) {
            let k = choose|k: int| 0 <= k < (pre + post).len() && (pre + post)[k] == node_id;
            if k < pre.len() {
                assert(pre[k] == node_id);
            } else {
                assert(post[k - pre.len()] == node_id);
            }
        }
    }
    lemma_without_insert(pre + post, c, node_id);
    let rest = without(s, node_id);
    assert(rest =~= pre + post);
    match before_id {
        None => {
            assert(s.len() - 1 == c);
            assert(landing_index(rest, before_id) == rest.len());
        },
        Some(b) => {
            let t = first_pos(s, b)->0;
            assert(0 <= t < s.len() && s[t] == b);
            assert(t == c + 1);
            assert(rest[c] == b);
            assert forall|m: int| 0 <= m < c implies rest[m] != b by {
                assert(rest[m] == s[m]);
            }
            lemma_first_pos_is(rest, b, c);
            assert(landing_index(rest, before_id) == c);
        },
    }
    rest.insert_ensures(c, node_id);
    assert(rest.insert(c, node_id) =~= s);
}

/// Two lists of the same siblings in the order siblings are listed in are
/// the same list: the order is fixed by the nodes.
pub proof fn law_sibling_order_unique(
    nodes: Seq<KbNode>,
    book_id: i64,
    parent_id: Option<i64>,
    s: Seq<i64>,
    t: Seq<i64>,
)
    requires
        distinct_ids(nodes),
        is_sibling_order(nodes, book_id, parent_id, s),
        is_sibling_order(nodes, book_id, parent_id, t),
    ensures
        s == t,
{
    assert forall|x: i64| s.contains(x) implies t.contains(x) by {
        let i = choose|i: int| 0 <= i < s.len() && s[i] == x;
        assert(node_index(nodes, s[i]) is Some);
        let j = node_index(nodes, x)->0;
        assert(is_sibling(nodes[j], book_id, parent_id));
    }
    assert forall|x: i64| t.contains(x) implies s.contains(x) by {
        let i = choose|i: int| 0 <= i < t.len() && t[i] == x;
        assert(node_index(nodes, t[i]) is Some);
        let j = node_index(nodes, x)->0;
        assert(is_sibling(nodes[j], book_id, parent_id));
    }
    lemma_sorted_same_members(nodes, s, t);
}

pub open spec fn listed_in_order(nodes: Seq<KbNode>, s: Seq<i64>) -> bool {
    forall|i: int, k: int|
        0 <= i < k < s.len() ==> listed_before(
            node_of(nodes, #[trigger] s[i]),
            node_of(nodes, #[trigger] s[k]),
        )
}

#[verifier::spinoff_prover]
#[verifier::rlimit(40)]
proof fn lemma_sorted_same_members(nodes: Seq<KbNode>, s: Seq<i64>, t: Seq<i64>)
    requires
        listed_in_order(nodes, s),
        listed_in_order(nodes, t),
        forall|x: i64| s.contains(x) <==> t.contains(x),
    ensures
        s == t,
    decreases s.len(),
{
    if s.len() == 0 {
        if t.len() > 0 {
            assert(t.contains(t[0]));
        }
        assert(s =~= t);
    } else if t.len() == 0 {
        assert(s.contains(s[0]));
    } else {
        assert(t.contains(s[0]));
        assert(s.contains(t[0]));
        let b = choose|b: int| 0 <= b < t.len() && t[b] == s[0];
        let a = choose|a: int| 0 <= a < s.len() && s[a] == t[0];
        if a > 0 && b > 0 {
            assert(listed_before(node_of(nodes, s[0]), node_of(nodes, s[a])));
            assert(listed_before(node_of(nodes, t[0]), node_of(nodes, t[b])));
        }
        if a == 0 && b > 0 {
            assert(listed_before(node_of(nodes, t[0]), node_of(nodes, t[b])));
        }
        if b == 0 && a > 0 {
            assert(listed_before(node_of(nodes, s[0]), node_of(nodes, s[a])));
        }
        assert(s[0] == t[0]);
        let s1 = s.skip(1);
        let t1 = t.skip(1);
        assert forall|x: i64| s1.contains(x) implies t1.contains(x) by {
            let i = choose|i: int| 0 <= i < s1.len() && s1[i] == x;
            assert(s[i + 1] == x);
            assert(t.contains(x));
            let k = choose|k: int| 0 <= k < t.len() && t[k] == x;
            if k == 0 {
                assert(listed_before(node_of(nodes, s[0]), node_of(nodes, s[i + 1])));
            }
            assert(t1[k - 1] == x);
        }
        assert forall|x: i64| t1.contains(x) implies s1.contains(x) by {
            let i = choose|i: int| 0 <= i < t1.len() && t1[i] == x;
            assert(t[i + 1] == x);
            assert(s.contains(x));
            let k = choose|k: int| 0 <= k < s.len() && s[k] == x;
            if k == 0 {
                assert(listed_before(node_of(nodes, t[0]), node_of(nodes, t[i + 1])));
            }
            assert(s1[k - 1] == x);
        }
        assert forall|i: int, k: int| 0 <= i < k < s1.len() implies listed_before(
            node_of(nodes, #[trigger] s1[i]),
            node_of(nodes, #[trigger] s1[k]),
        ) by {
            assert(s1[i] == s[i + 1] && s1[k] == s[k + 1]);
        }
        assert forall|i: int, k: int| 0 <= i < k < t1.len() implies listed_before(
            node_of(nodes, #[trigger] t1[i]),
            node_of(nodes, #[trigger] t1[k]),
        ) by {
            assert(t1[i] == t[i + 1] && t1[k] == t[k + 1]);
        }
        lemma_sorted_same_members(nodes, s1, t1);
        assert(s =~= seq![s[0]] + s1);
        assert(t =~= seq![t[0]] + t1);
    }
}

} // verus!
