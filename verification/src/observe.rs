use vstd::prelude::*;
use crate::event::{MouseEvent, MouseEventKind};
use crate::geometry::{Position, Rect};

verus! {

/// What the mouse last did over an element; `Clicked`, `Hovered` and `Drag`
/// carry the column and row of the mouse.
#[derive(Clone, Copy, Debug, PartialEq, Eq, Structural, Default)]
pub enum HitEvent {
    #[default]
    Nothing,
    Clicked(u16, u16),
    Hovered(u16, u16),
    Drag(u16, u16),
}

/// The area that an element was last drawn in, if it was drawn.
#[derive(Clone, Copy, Debug, PartialEq, Eq, Structural, Default)]
pub struct AreaRef {
    area: Option<Rect>,
}

/// The last hit event of an element.
#[derive(Clone, Copy, Debug, PartialEq, Eq, Structural, Default)]
pub struct HitTest {
    event: HitEvent,
}

impl View for AreaRef {
    type V = Option<Rect>;

    closed spec fn view(&self) -> Option<Rect> {
        self.area
    }
}

impl View for HitTest {
    type V = HitEvent;

    closed spec fn view(&self) -> HitEvent {
        self.event
    }
}

impl AreaRef {
    pub fn get(&self) -> (r: Option<Rect>)
        ensures
            r == self@,
    {
        self.area
    }

    /// Records the area the element was drawn in.
    pub fn set(&mut self, value: Rect)
        ensures
            final(self)@ == Some(value),
    {
        self.area = Some(value);
    }

    pub fn new(value: Rect) -> (r: AreaRef)
        ensures
            r@ == Some(value),
    {
        AreaRef { area: Some(value) }
    }

    /// An area reference for an element not drawn yet.
    pub fn empty() -> (r: AreaRef)
        ensures
            r@ == None::<Rect>,
    {
        AreaRef { area: None }
    }

    /// Whether the cell `(x, y)` lies in the recorded area; false when there is none.
    pub fn contains(&self, x: u16, y: u16) -> (b: bool)
        ensures
            b == (self@ matches Some(rect) && rect.spec_contains(Position { x, y })),
    {
        match self.area {
            Some(rect) => rect.contains(Position::new(x, y)),
            None => false,
        }
    }
}

impl HitTest {
    pub fn get(&self) -> (r: HitEvent)
        ensures
            r == self@,
    {
        self.event
    }

    /// Records a hit event.
    pub fn set(&mut self, value: HitEvent)
        ensures
            final(self)@ == value,
    {
        self.event = value;
    }

    pub fn new(value: HitEvent) -> (r: HitTest)
        ensures
            r@ == value,
    {
        HitTest { event: value }
    }

    /// A hit test with no event yet.
    pub fn empty() -> (r: HitTest)
        ensures
            r@ == HitEvent::Nothing,
    {
        HitTest { event: HitEvent::Nothing }
    }
}

/// An element as hit testing sees it: its area and the indices of its children.
pub struct HitNode {
    pub area: Rect,
    pub children: Vec<usize>,
}

/// Children come after their parent: the nodes form a forest in index order.
pub open spec fn nodes_well_formed(nodes: Seq<HitNode>) -> bool {
    forall|i: int, k: int|
        #![trigger nodes[i].children@[k]]
        0 <= i < nodes.len() && 0 <= k < nodes[i].children@.len() ==> i < nodes[i].children@[k]
            < nodes.len()
}

/// `p` is a path from parent to child through the nodes.
pub open spec fn is_node_path(nodes: Seq<HitNode>, p: Seq<usize>) -> bool {
    &&& p.len() > 0
    &&& forall|k: int|
        #![trigger p[k]]
        0 <= k < p.len() - 1 ==> p[k] < nodes.len() && nodes[p[k] as int].children@.contains(p[k + 1])
}

/// Node `b` lies in the subtree of node `a`.
pub open spec fn node_reaches(nodes: Seq<HitNode>, a: usize, b: usize) -> bool {
    exists|p: Seq<usize>| is_node_path(nodes, p) && p[0] == a && p.last() == b
}

/// The hit event that a mouse event leaves on an element with this area: a
/// press inside is a click, a move inside a hover, anything else nothing.
pub open spec fn spec_hit_for(area: Rect, m: MouseEvent) -> HitEvent {
    if area.spec_contains(Position { x: m.column, y: m.row }) {
        match m.kind {
            MouseEventKind::Down(_) => HitEvent::Clicked(m.column, m.row),
            MouseEventKind::Moved => HitEvent::Hovered(m.column, m.row),
            _ => HitEvent::Nothing,
        }
    } else {
        HitEvent::Nothing
    }
}

/// The hit event of a mouse event over an area.
pub fn hit_for(area: Rect, m: MouseEvent) -> (h: HitEvent)
    ensures
        h == spec_hit_for(area, m),
{
    if area.contains(Position::new(m.column, m.row)) {
        match m.kind {
            MouseEventKind::Down(_) => HitEvent::Clicked(m.column, m.row),
            MouseEventKind::Moved => HitEvent::Hovered(m.column, m.row),
            _ => HitEvent::Nothing,
        }
    } else {
        HitEvent::Nothing
    }
}

/// The event an optional hit test holds.
pub open spec fn hit_view(h: Option<HitTest>) -> Option<HitEvent> {
    match h {
        Some(t) => Some(t@),
        None => None,
    }
}

/// The hit event of element `i` after a mouse event over the subtree of `root`.
pub open spec fn spec_hits_after(
    nodes: Seq<HitNode>,
    hits: Seq<Option<HitTest>>,
    root: usize,
    m: MouseEvent,
    i: int,
) -> Option<HitEvent> {
    if !(m.kind is Up) && node_reaches(nodes, root, i as usize) && hits[i] is Some {
        Some(spec_hit_for(nodes[i].area, m))
    } else {
        hit_view(hits[i])
    }
}

proof fn lemma_node_path_prepend(nodes: Seq<HitNode>, r: usize, p: Seq<usize>)
    requires
        is_node_path(nodes, p),
        r < nodes.len(),
        nodes[r as int].children@.contains(p[0]),
    ensures
        is_node_path(nodes, seq![r] + p),
        (seq![r] + p)[0] == r,
        (seq![r] + p).last() == p.last(),
{
    let q = seq![r] + p;
    assert forall|k: int| 0 <= k < q.len() - 1 implies #[trigger] q[k] < nodes.len()
        && nodes[q[k] as int].children@.contains(q[k + 1]) by {
        if k == 0 {
            assert(q[1] == p[0]);
        } else {
            assert(q[k] == p[k - 1]);
            assert(q[k + 1] == p[k]);
        }
    }
}

/// A node reached from `r` other than `r` is reached from one of its children.
proof fn lemma_node_reaches_split(nodes: Seq<HitNode>, r: usize, b: usize)
    requires
        node_reaches(nodes, r, b),
        b != r,
    ensures
        exists|k: int|
            0 <= k < nodes[r as int].children@.len() && node_reaches(
                nodes,
                #[trigger] nodes[r as int].children@[k],
                b,
            ),
{
    let p = choose|p: Seq<usize>| is_node_path(nodes, p) && p[0] == r && p.last() == b;
    assert(p.len() > 1);
    assert(p[0] < nodes.len() && nodes[p[0] as int].children@.contains(p[1]));
    let k = nodes[r as int].children@.index_of(p[1]);
    let q = p.subrange(1, p.len() as int);
    assert forall|j: int| 0 <= j < q.len() - 1 implies #[trigger] q[j] < nodes.len()
        && nodes[q[j] as int].children@.contains(q[j + 1]) by {
        assert(q[j] == p[j + 1]);
        assert(q[j + 1] == p[j + 2]);
    }
    assert(is_node_path(nodes, q) && q[0] == p[1] && q.last() == b);
    assert(node_reaches(nodes, nodes[r as int].children@[k], b));
}

/// A node is in the subtree of `root` when it is `root` or in the subtree of
/// one of its children.
proof fn lemma_covered_iff_reaches(nodes: Seq<HitNode>, root: usize, i: int)
    requires
        root < nodes.len() <= usize::MAX,
        0 <= i < nodes.len(),
    ensures
        (i == root || exists|j: int|
            0 <= j < nodes[root as int].children@.len() && node_reaches(
                nodes,
                #[trigger] nodes[root as int].children@[j],
                i as usize,
            )) == node_reaches(nodes, root, i as usize),
{
    let kids = nodes[root as int].children@;
    let covered = i == root || exists|j: int|
        0 <= j < kids.len() && node_reaches(nodes, #[trigger] kids[j], i as usize);
    let single = seq![root];
    assert(single[0] == root && single.last() == root && is_node_path(nodes, single));
    if node_reaches(nodes, root, i as usize) && (i as usize) != root {
        lemma_node_reaches_split(nodes, root, i as usize);
    }
    if covered && i != root {
        let j = choose|j: int| 0 <= j < kids.len() && node_reaches(nodes, #[trigger] kids[j], i as usize);
        let c = kids[j];
        assert(kids.contains(c));
        let p = choose|p: Seq<usize>| is_node_path(nodes, p) && p[0] == c && p.last() == i as usize;
        lemma_node_path_prepend(nodes, root, p);
    }
    if (i as usize) == root {
        assert(i == root as int);
    }
}

impl HitTest {
    /// Records, for every element in the subtree of `root` that has a hit test,
    /// what the mouse event did to it; a release of a button changes nothing.
    pub fn hit_test(
        nodes: &Vec<HitNode>,
        hits: &mut Vec<Option<HitTest>>,
        root: usize,
        mouse_event: MouseEvent,
    )
        requires
            nodes_well_formed(nodes@),
            old(hits)@.len() == nodes@.len(),
            root < nodes@.len(),
        ensures
            final(hits)@.len() == old(hits)@.len(),
            forall|i: int|
                0 <= i < nodes@.len() ==> hit_view(#[trigger] final(hits)@[i]) == spec_hits_after(
                    nodes@,
                    old(hits)@,
                    root,
                    mouse_event,
                    i,
                ),
        decreases nodes@.len() - root,
    {
        let ghost h0 = hits@;
        if let MouseEventKind::Up(_) = mouse_event.kind {
            return;
        }
        let area = nodes[root].area;
        if hits[root].is_some() {
            hits.set(root, Some(HitTest::new(hit_for(area, mouse_event))));
        }
        let mut k: usize = 0;
        while k < nodes[root].children.len()
            invariant
                nodes_well_formed(nodes@),
                root < nodes@.len(),
                hits@.len() == nodes@.len(),
                h0.len() == nodes@.len(),
                !(mouse_event.kind is Up),
                k <= nodes@[root as int].children@.len(),
                forall|i: int|
                    0 <= i < nodes@.len() ==> #[trigger] hits@[i] == if (i == root || exists|j: int|
                        0 <= j < k && node_reaches(
                            nodes@,
                            #[trigger] nodes@[root as int].children@[j],
                            i as usize,
                        )) && h0[i] is Some {
                        Some(HitTest { event: spec_hit_for(nodes@[i].area, mouse_event) })
                    } else {
                        h0[i]
                    },
            decreases nodes@[root as int].children@.len() - k,
        {
            let child = nodes[root].children[k];
            assert(root < child < nodes@.len());
            HitTest::hit_test(nodes, hits, child, mouse_event);
            proof {
                assert forall|i: int| 0 <= i < nodes@.len() implies #[trigger] hits@[i] == if (i == root
                    || exists|j: int|
                    0 <= j < k + 1 && node_reaches(
                        nodes@,
                        #[trigger] nodes@[root as int].children@[j],
                        i as usize,
                    )) && h0[i] is Some {
                    Some(HitTest { event: spec_hit_for(nodes@[i].area, mouse_event) })
                } else {
                    h0[i]
                } by {
                    if node_reaches(nodes@, child, i as usize) {
                        assert(nodes@[root as int].children@[k as int] == child);
                    }
                    if exists|j: int|
                        0 <= j < k + 1 && node_reaches(
                            nodes@,
                            #[trigger] nodes@[root as int].children@[j],
                            i as usize,
                        ) {
                        let j = choose|j: int|
                            0 <= j < k + 1 && node_reaches(
                                nodes@,
                                #[trigger] nodes@[root as int].children@[j],
                                i as usize,
                            );
                        if j < k {
                        } else {
                            assert(node_reaches(nodes@, child, i as usize));
                        }
                    }
                }
            }
            k = k + 1;
        }
        proof {
            let kids = nodes@[root as int].children@;
            assert(k == kids.len());
            assert forall|i: int| 0 <= i < nodes@.len() implies hit_view(#[trigger] hits@[i]) == spec_hits_after(
                nodes@,
                h0,
                root,
                mouse_event,
                i,
            ) by {
                assert(nodes@.len() == nodes.len());
                lemma_covered_iff_reaches(nodes@, root, i);
            }
        }
    }
}

} // verus!
