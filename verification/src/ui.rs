use std::collections::VecDeque;
use vstd::prelude::*;

use crate::element::{Element, ElementCtx};

verus! {

/// A node of a user interface to spawn, found by its position in a list of
/// nodes: the positions of its children, or `None` for an element that takes
/// no children.
pub struct UiNode {
    pub children: Option<Vec<usize>>,
}

/// `k` is a child slot of node `i`.
pub open spec fn ui_slot(nodes: Seq<UiNode>, i: int, k: int) -> bool {
    &&& 0 <= i < nodes.len()
    &&& nodes[i].children is Some
    &&& 0 <= k < nodes[i].children->0@.len()
}

/// The node in child slot `k` of node `i`.
pub open spec fn ui_child(nodes: Seq<UiNode>, i: int, k: int) -> int {
    nodes[i].children->0@[k] as int
}

/// Node `c` sits in a child slot of node `i`.
pub open spec fn ui_is_parent(nodes: Seq<UiNode>, i: int, c: int) -> bool {
    exists|k: int| #[trigger] ui_slot(nodes, i, k) && ui_child(nodes, i, k) == c
}

/// Node `c` sits in a child slot of some node.
pub open spec fn ui_has_parent(nodes: Seq<UiNode>, c: int) -> bool {
    exists|i: int| #[trigger] ui_is_parent(nodes, i, c)
}

/// The node whose child node `c` is.
pub open spec fn ui_parent(nodes: Seq<UiNode>, c: int) -> int {
    choose|i: int| #[trigger] ui_is_parent(nodes, i, c)
}

/// The nodes describe one tree whose root is the first node: every child
/// comes after its parent, no node fills two child slots, and every node but
/// the root fills one.
pub open spec fn ui_well_formed(nodes: Seq<UiNode>) -> bool {
    &&& nodes.len() > 0
    &&& forall|i: int, k: int| #[trigger] ui_slot(nodes, i, k) ==> i < ui_child(nodes, i, k) < nodes.len()
    &&& forall|i: int, k: int, j: int, l: int|
        #[trigger] ui_slot(nodes, i, k) && #[trigger] ui_slot(nodes, j, l) && ui_child(nodes, i, k)
            == ui_child(nodes, j, l) ==> i == j && k == l
    &&& forall|c: int| 0 < c < nodes.len() ==> #[trigger] ui_has_parent(nodes, c)
}

/// The nodes that take children.
pub open spec fn ui_with_children(nodes: Seq<UiNode>) -> Set<int> {
    Set::new(|i: int| 0 <= i < nodes.len() && nodes[i].children is Some)
}

/// An element holds the children that node `n` asks for, each child node
/// spawned as the element that `m` gives it.
pub open spec fn holds_children(v: Option<Seq<Element>>, n: UiNode, m: Seq<Element>) -> bool {
    match n.children {
        None => v is None,
        Some(cs) => v == Some(cs@.map_values(|c: usize| m[c as int])),
    }
}

/// `after` is `before` with the nodes spawned: node `i` as the new element
/// `m[i]`, with the children its node asks for; all else is unchanged.
pub open spec fn spawned_as(
    before: Map<Element, Option<Seq<Element>>>,
    after: Map<Element, Option<Seq<Element>>>,
    nodes: Seq<UiNode>,
    m: Seq<Element>,
) -> bool {
    &&& m.len() == nodes.len()
    &&& forall|i: int| 0 <= i < m.len() ==> !before.dom().contains(#[trigger] m[i]) && after.dom().contains(m[i])
    &&& forall|i: int, j: int| 0 <= i < m.len() && 0 <= j < m.len() && i != j ==> #[trigger] m[i] != #[trigger] m[j]
    &&& forall|x: Element| #[trigger] after.dom().contains(x) ==> before.dom().contains(x) || m.contains(x)
    &&& forall|x: Element| #[trigger] before.dom().contains(x) ==> after.dom().contains(x) && after[x] == before[x]
    &&& forall|i: int| 0 <= i < m.len() ==> holds_children(after[#[trigger] m[i]], nodes[i], m)
}

/// `after` gives each spawned node but the root the element of its parent
/// node as parent; every other element keeps the parent it had in `before`.
pub open spec fn parented_as(
    before: Map<Element, Element>,
    after: Map<Element, Element>,
    nodes: Seq<UiNode>,
    m: Seq<Element>,
) -> bool {
    &&& forall|i: int|
        0 < i < m.len() ==> after.dom().contains(#[trigger] m[i]) && after[m[i]] == m[ui_parent(nodes, i)]
    &&& forall|x: Element|
        #[trigger] after.dom().contains(x) && !m.subrange(1, m.len() as int).contains(x) ==> before.dom().contains(x)
            && after[x] == before[x]
    &&& forall|x: Element|
        #[trigger] before.dom().contains(x) && !m.subrange(1, m.len() as int).contains(x) ==> after.dom().contains(x)
            && after[x] == before[x]
}

/// While spawning: an element holds the children node `n` asks for, each of
/// them already spawned.
spec fn holds_spawned_children(v: Option<Seq<Element>>, n: UiNode, m: Map<int, Element>) -> bool {
    match n.children {
        None => v is None,
        Some(cs) => {
            &&& v is Some
            &&& v->0.len() == cs@.len()
            &&& forall|k: int|
                0 <= k < cs@.len() ==> m.dom().contains(#[trigger] cs@[k] as int) && v->0[k] == m[cs@[k] as int]
        },
    }
}

/// The parent of a child is the node whose slot it fills, and comes before it.
proof fn lemma_ui_parent(nodes: Seq<UiNode>, i: int, k: int)
    requires
        ui_well_formed(nodes),
        ui_slot(nodes, i, k),
    ensures
        ui_parent(nodes, ui_child(nodes, i, k)) == i,
        i < ui_child(nodes, i, k),
{
    let c = ui_child(nodes, i, k);
    assert(ui_is_parent(nodes, i, c));
    let p = ui_parent(nodes, c);
    let k2 = choose|k2: int| #[trigger] ui_slot(nodes, p, k2) && ui_child(nodes, p, k2) == c;
    assert(ui_slot(nodes, p, k2) && ui_slot(nodes, i, k));
}

/// Every node but the root has a parent, which comes before it.
pub(crate) proof fn lemma_ui_parent_of(nodes: Seq<UiNode>, c: int) -> (k: int)
    requires
        ui_well_formed(nodes),
        0 < c < nodes.len(),
    ensures
        ui_slot(nodes, ui_parent(nodes, c), k),
        ui_child(nodes, ui_parent(nodes, c), k) == c,
        ui_parent(nodes, c) < c,
{
    assert(ui_has_parent(nodes, c));
    let i = choose|i: int| #[trigger] ui_is_parent(nodes, i, c);
    let k = choose|k: int| #[trigger] ui_slot(nodes, i, k) && ui_child(nodes, i, k) == c;
    lemma_ui_parent(nodes, i, k);
    k
}

/// A set of nodes that holds the root and the children of each of its nodes
/// holds every node.
proof fn lemma_all_spawned(nodes: Seq<UiNode>, dom: Set<int>, c: int)
    requires
        ui_well_formed(nodes),
        dom.contains(0),
        forall|i: int, k: int| #[trigger] ui_slot(nodes, i, k) && dom.contains(i) ==> dom.contains(ui_child(nodes, i, k)),
        0 <= c < nodes.len(),
    ensures
        dom.contains(c),
    decreases c,
{
    if c > 0 {
        let k = lemma_ui_parent_of(nodes, c);
        let p = ui_parent(nodes, c);
        lemma_all_spawned(nodes, dom, p);
        assert(ui_slot(nodes, p, k));
    }
}

impl ElementCtx {
    /// Spawns the nodes as a tree of new elements and returns the root's.
    ///
    /// The nodes are spawned breadth first from the root: each element with
    /// children waits in a queue until its children are spawned, each of them
    /// with the element as parent, and it is given them. The root gets no
    /// parent. Each node is spawned once and the queue hands out each node that
    /// takes children once, so the work is linear in the number of nodes.
    pub fn spawn_ui(&mut self, nodes: &Vec<UiNode>) -> (root: Element)
        requires
            ui_well_formed(nodes@),
        ensures
            exists|m: Seq<Element>|
                #[trigger] spawned_as(old(self).tree(), final(self).tree(), nodes@, m) && parented_as(
                    old(self).parents(),
                    final(self).parents(),
                    nodes@,
                    m,
                ) && m[0] == root,
            final(self).parents_alive(),
    {
        let (root, _taken) = self.spawn_breadth_first(nodes);
        root
    }

    /// The work of [`ElementCtx::spawn_ui`]; the ghost count is the number of
    /// elements the queue handed out, one for each node that takes children.
    fn spawn_breadth_first(&mut self, nodes: &Vec<UiNode>) -> (r: (Element, Ghost<int>))
        requires
            ui_well_formed(nodes@),
        ensures
            exists|m: Seq<Element>|
                #[trigger] spawned_as(old(self).tree(), final(self).tree(), nodes@, m) && parented_as(
                    old(self).parents(),
                    final(self).parents(),
                    nodes@,
                    m,
                ) && m[0] == r.0,
            final(self).parents_alive(),
            r.1@ == ui_with_children(nodes@).len(),
    {
        let ghost t0 = self.tree();
        let ghost len = nodes@.len() as int;
        let root = self.spawn_leaf();
        let ghost pp0 = self.parents();
        let ghost mut asg: Map<Element, Element> = Map::empty();
        let ghost mut m: Map<int, Element> = map![0int => root];
        let ghost mut inv: Map<Element, int> = map![root => 0int];
        let ghost mut order: Seq<int> = Seq::empty();
        let ghost mut pos: Map<int, int> = Map::empty();
        let ghost mut head: int = 0;
        let mut queue: VecDeque<(usize, Element)> = VecDeque::new();
        if nodes[0].children.is_some() {
            queue.push_back((0, root));
            proof {
                order = seq![0int];
                pos = map![0int => 0int];
            }
        }
        proof {
            lemma_spawned_bound(m.dom(), len);
        }
        while queue.len() > 0
            invariant
                ui_well_formed(nodes@),
                len == nodes@.len(),
                t0 == old(self).tree(),
                pp0 == old(self).parents(),
                self.parents() == pp0.union_prefer_right(asg),
                self.parents_alive(),
                forall|y: Element|
                    #[trigger] asg.dom().contains(y) ==> inv.dom().contains(y) && m.dom().contains(inv[y]) && m[inv[y]]
                        == y && inv[y] != 0 && asg[y] == m[ui_parent(nodes@, inv[y])],
                forall|c: int| #[trigger] m.dom().contains(c) && c != 0 ==> asg.dom().contains(m[c]),
                m.dom().finite(),
                m.dom().len() <= len,
                forall|i: int| #[trigger] m.dom().contains(i) ==> 0 <= i < len,
                m.dom().contains(0),
                m[0] == root,
                forall|i: int|
                    #[trigger] m.dom().contains(i) ==> !t0.dom().contains(m[i]) && self.tree().dom().contains(m[i]),
                forall|i: int, j: int|
                    m.dom().contains(i) && m.dom().contains(j) && i != j ==> #[trigger] m[i] != #[trigger] m[j],
                forall|x: Element|
                    #[trigger] self.tree().dom().contains(x) && !t0.dom().contains(x) ==> inv.dom().contains(x)
                        && m.dom().contains(inv[x]) && m[inv[x]] == x,
                forall|x: Element|
                    #[trigger] t0.dom().contains(x) ==> self.tree().dom().contains(x) && self.tree()[x] == t0[x],
                forall|j: int|
                    0 <= j < order.len() ==> m.dom().contains(#[trigger] order[j]) && nodes@[order[j]].children is Some
                        && pos.dom().contains(order[j]) && pos[order[j]] == j,
                forall|i: int|
                    #[trigger] m.dom().contains(i) && nodes@[i].children is Some ==> pos.dom().contains(i) && 0 <= pos[i]
                        < order.len() && order[pos[i]] == i,
                0 <= head <= order.len(),
                queue@.len() == order.len() - head,
                forall|j: int|
                    0 <= j < queue@.len() ==> (#[trigger] queue@[j]).0 == order[head + j] && queue@[j].1 == m[order[head
                        + j]],
                forall|i: int|
                    #[trigger] m.dom().contains(i) && (nodes@[i].children is None || pos[i] < head)
                        ==> holds_spawned_children(self.tree()[m[i]], nodes@[i], m),
                forall|i: int, k: int|
                    #[trigger] m.dom().contains(i) && nodes@[i].children is Some && pos[i] >= head && ui_slot(nodes@, i, k)
                        ==> !m.dom().contains(#[trigger] ui_child(nodes@, i, k)),
                forall|i: int|
                    #[trigger] m.dom().contains(i) && nodes@[i].children is Some && pos[i] >= head ==> self.tree()[m[i]] is None,
                forall|x: int|
                    #[trigger] m.dom().contains(x) && x != 0 ==> m.dom().contains(ui_parent(nodes@, x))
                        && pos[ui_parent(nodes@, x)] < head,
            decreases len - m.dom().len(), queue@.len(),
        {
            let (cur, e) = queue.pop_front().unwrap();
            let ghost dom0 = m.dom().len();
            let ghost q0 = queue@.len();
            proof {
                assert(order[head] == cur as int);
                assert(pos[cur as int] == head);
                assert forall|j: int| #[trigger] ui_slot(nodes@, cur as int, j) implies !m.dom().contains(
                    ui_child(nodes@, cur as int, j),
                ) by {
                    assert(m.dom().contains(cur as int));
                }
                head = head + 1;
            }
            if let Some(cs) = &nodes[cur].children {
                let mut kids: Vec<Element> = Vec::new();
                let mut k: usize = 0;
                while k < cs.len()
                    invariant
                        0 <= k <= cs@.len(),
                        nodes@[cur as int].children == Some(*cs),
                        kids@.len() == k,
                        ui_well_formed(nodes@),
                        len == nodes@.len(),
                        t0 == old(self).tree(),
                        pp0 == old(self).parents(),
                        self.parents() == pp0.union_prefer_right(asg),
                        self.parents_alive(),
                        forall|y: Element|
                            #[trigger] asg.dom().contains(y) ==> inv.dom().contains(y) && m.dom().contains(inv[y]) && m[inv[y]]
                                == y && inv[y] != 0 && asg[y] == m[ui_parent(nodes@, inv[y])],
                        forall|c: int| #[trigger] m.dom().contains(c) && c != 0 ==> asg.dom().contains(m[c]),
                        m.dom().finite(),
                        forall|i: int| #[trigger] m.dom().contains(i) ==> 0 <= i < len,
                        m.dom().contains(0),
                        m[0] == root,
                        m.dom().contains(cur as int),
                        m[cur as int] == e,
                        pos.dom().contains(cur as int),
                        pos[cur as int] < head,
                        self.tree()[e] is None,
                        forall|j: int|
                            0 <= j < k ==> m.dom().contains(#[trigger] cs@[j] as int) && kids@[j] == m[cs@[j] as int],
                        forall|j: int|
                            k <= j < cs@.len() ==> !m.dom().contains(#[trigger] ui_child(nodes@, cur as int, j)),
                        m.dom().len() == dom0 + k,
                        queue@.len() <= q0 + k,
                        forall|i: int|
                            #[trigger] m.dom().contains(i) ==> !t0.dom().contains(m[i]) && self.tree().dom().contains(m[i]),
                        forall|i: int, j: int|
                            m.dom().contains(i) && m.dom().contains(j) && i != j ==> #[trigger] m[i] != #[trigger] m[j],
                        forall|x: Element|
                            #[trigger] self.tree().dom().contains(x) && !t0.dom().contains(x) ==> inv.dom().contains(x)
                                && m.dom().contains(inv[x]) && m[inv[x]] == x,
                        forall|x: Element|
                            #[trigger] t0.dom().contains(x) ==> self.tree().dom().contains(x) && self.tree()[x] == t0[x],
                        forall|j: int|
                            0 <= j < order.len() ==> m.dom().contains(#[trigger] order[j]) && nodes@[order[j]].children is Some
                                && pos.dom().contains(order[j]) && pos[order[j]] == j,
                        forall|i: int|
                            #[trigger] m.dom().contains(i) && nodes@[i].children is Some ==> pos.dom().contains(i) && 0
                                <= pos[i] < order.len() && order[pos[i]] == i,
                        0 <= head <= order.len(),
                        queue@.len() == order.len() - head,
                        forall|j: int|
                            0 <= j < queue@.len() ==> (#[trigger] queue@[j]).0 == order[head + j] && queue@[j].1
                                == m[order[head + j]],
                        forall|i: int|
                            #[trigger] m.dom().contains(i) && i != cur && (nodes@[i].children is None || pos[i] < head)
                                ==> holds_spawned_children(self.tree()[m[i]], nodes@[i], m),
                        forall|i: int, k2: int|
                            #[trigger] m.dom().contains(i) && nodes@[i].children is Some && pos[i] >= head && ui_slot(
                                nodes@,
                                i,
                                k2,
                            ) ==> !m.dom().contains(#[trigger] ui_child(nodes@, i, k2)),
                        forall|i: int|
                            #[trigger] m.dom().contains(i) && nodes@[i].children is Some && pos[i] >= head
                                ==> self.tree()[m[i]] is None,
                        forall|x: int|
                            #[trigger] m.dom().contains(x) && x != 0 ==> m.dom().contains(ui_parent(nodes@, x))
                                && pos[ui_parent(nodes@, x)] < head,
                    decreases cs@.len() - k,
                {
                    let c = cs[k];
                    proof {
                        assert(ui_slot(nodes@, cur as int, k as int));
                        lemma_ui_parent(nodes@, cur as int, k as int);
                        assert forall|j: int| k < j < cs@.len() implies #[trigger] ui_child(nodes@, cur as int, j)
                            != c as int by {
                            assert(ui_slot(nodes@, cur as int, j));
                        }
                    }
                    let ce = self.spawn_leaf();
                    self.set_parent(ce, e);
                    proof {
                        m = m.insert(c as int, ce);
                        inv = inv.insert(ce, c as int);
                        asg = asg.insert(ce, e);
                        assert(self.parents() =~= pp0.union_prefer_right(asg));
                    }
                    proof {
                        assert forall|i: int, k2: int|
                            #[trigger] m.dom().contains(i) && nodes@[i].children is Some && (i == c || pos[i] >= head)
                                && ui_slot(nodes@, i, k2) implies !m.dom().contains(
                            #[trigger] ui_child(nodes@, i, k2),
                        ) by {
                            let y = ui_child(nodes@, i, k2);
                            lemma_ui_parent(nodes@, i, k2);
                            if i == c {
                                if m.dom().contains(y) {
                                    assert(y != 0);
                                    assert(ui_parent(nodes@, y) == c);
                                    assert(m.dom().contains(c as int) && m[c as int] == ce);
                                    assert(pos[ui_parent(nodes@, y)] < head);
                                }
                            } else {
                                assert(ui_slot(nodes@, cur as int, k as int));
                                assert(i != cur);
                            }
                        }
                    }
                    kids.push(ce);
                    if nodes[c].children.is_some() {
                        queue.push_back((c, ce));
                        proof {
                            pos = pos.insert(c as int, order.len() as int);
                            order = order.push(c as int);
                        }
                    }
                    k = k + 1;
                }
                self.set_children(e, kids);
            }
            proof {
                lemma_spawned_bound(m.dom(), len);
            }
        }
        let ghost ms = Seq::new(len as nat, |i: int| m[i]);
        proof {
            let t = self.tree();
            assert forall|i: int, k: int|
                #[trigger] ui_slot(nodes@, i, k) && m.dom().contains(i) implies m.dom().contains(
                ui_child(nodes@, i, k),
            ) by {
                assert(holds_spawned_children(t[m[i]], nodes@[i], m));
                let cs = nodes@[i].children->0;
                assert(m.dom().contains(cs@[k] as int));
            }
            assert forall|c: int| 0 <= c < len implies #[trigger] m.dom().contains(c) by {
                lemma_all_spawned(nodes@, m.dom(), c);
            }
            assert forall|i: int| 0 <= i < ms.len() implies !t0.dom().contains(#[trigger] ms[i]) && t.dom().contains(
                ms[i],
            ) by {
                assert(m.dom().contains(i));
            }
            assert forall|i: int, j: int| 0 <= i < ms.len() && 0 <= j < ms.len() && i != j implies #[trigger] ms[i]
                != #[trigger] ms[j] by {
                assert(m.dom().contains(i) && m.dom().contains(j));
            }
            assert forall|x: Element| #[trigger] t.dom().contains(x) implies t0.dom().contains(x) || ms.contains(x) by {
                if !t0.dom().contains(x) {
                    let i = inv[x];
                    assert(ms[i] == x);
                }
            }
            assert forall|i: int| 0 <= i < ms.len() implies holds_children(t[#[trigger] ms[i]], nodes@[i], ms) by {
                assert(m.dom().contains(i));
                assert(holds_spawned_children(t[m[i]], nodes@[i], m));
                match nodes@[i].children {
                    None => {},
                    Some(cs) => {
                        assert forall|k: int| 0 <= k < cs@.len() implies t[ms[i]]->0[k] == cs@.map_values(
                            |c: usize| ms[c as int],
                        )[k] by {
                            assert(m.dom().contains(cs@[k] as int));
                        }
                        assert(t[ms[i]]->0 =~= cs@.map_values(|c: usize| ms[c as int]));
                    },
                }
            }
            assert(spawned_as(t0, t, nodes@, ms));
            let pp = self.parents();
            let rest = ms.subrange(1, len);
            assert forall|i: int| 0 < i < ms.len() implies pp.dom().contains(#[trigger] ms[i]) && pp[ms[i]]
                == ms[ui_parent(nodes@, i)] by {
                assert(m.dom().contains(i));
                assert(asg.dom().contains(m[i]));
                let j = inv[m[i]];
                assert(m.dom().contains(j) && m[j] == m[i]);
                lemma_ui_parent_of(nodes@, i);
            }
            assert forall|x: Element|
                #[trigger] pp.dom().contains(x) && !rest.contains(x) implies pp0.dom().contains(x) && pp[x]
                == pp0[x] by {
                if asg.dom().contains(x) {
                    let j = inv[x];
                    assert(rest[j - 1] == x);
                }
            }
            assert forall|x: Element|
                #[trigger] pp0.dom().contains(x) && !rest.contains(x) implies pp.dom().contains(x) && pp[x]
                == pp0[x] by {
                if asg.dom().contains(x) {
                    let j = inv[x];
                    assert(rest[j - 1] == x);
                }
            }
            assert(parented_as(pp0, pp, nodes@, ms));
            // `head` counts the elements taken from the queue: each node that
            // takes children was taken exactly once.
            assert forall|a: int, b: int| 0 <= a < b < order.len() implies order[a] != order[b] by {
                assert(pos[order[a]] == a && pos[order[b]] == b);
            }
            assert(order.no_duplicates());
            assert forall|i: int| #[trigger] order.to_set().contains(i) <==> ui_with_children(nodes@).contains(i) by {
                if ui_with_children(nodes@).contains(i) {
                    assert(m.dom().contains(i));
                    assert(order[pos[i]] == i);
                }
                if order.to_set().contains(i) {
                    let j = order.index_of(i);
                    assert(m.dom().contains(order[j]));
                }
            }
            assert(order.to_set() =~= ui_with_children(nodes@));
            order.unique_seq_to_set();
            assert(head == ui_with_children(nodes@).len());
        }
        (root, Ghost(head))
    }
}

/// The spawned nodes are among the nodes, so there are no more of them.
proof fn lemma_spawned_bound(dom: Set<int>, len: int)
    requires
        forall|i: int| #[trigger] dom.contains(i) ==> 0 <= i < len,
        0 <= len,
    ensures
        dom.finite(),
        dom.len() <= len,
{
    vstd::set_lib::lemma_int_range(0, len);
    assert(dom.subset_of(vstd::set_lib::set_int_range(0, len)));
    vstd::set_lib::lemma_len_subset(dom, vstd::set_lib::set_int_range(0, len));
}

} // verus!
