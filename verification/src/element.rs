use vstd::prelude::*;

verus! {

/// An element of the tree, by the bits of its entity in the element world.
pub type Element = u64;

/// The children of an element, as a component of its entity.
pub struct Children(pub Vec<Element>);

/// The parent of an element, as a component of its entity.
pub struct Parent(pub Element);

#[verifier::external_type_specification]
#[verifier::external_body]
pub struct ExWorld(hecs::World);

/// The tree with no element.
pub open spec fn empty_tree() -> Map<Element, Option<Seq<Element>>> {
    Map::empty()
}

/// No element has a parent.
pub open spec fn no_parents() -> Map<Element, Element> {
    Map::empty()
}

/// The elements alive in a world, each with the children it holds, if it holds a
/// [`Children`] component.
pub uninterp spec fn world_tree(w: hecs::World) -> Map<Element, Option<Seq<Element>>>;

/// The parent of each element of a world that holds a [`Parent`] component.
pub uninterp spec fn world_parents(w: hecs::World) -> Map<Element, Element>;

/// Only live elements hold components, a parent among them.
pub open spec fn world_parents_alive(w: hecs::World) -> bool {
    world_parents(w).dom().subset_of(world_tree(w).dom())
}

/// Calls `hecs::World::new`: a world with no entity.
#[verifier::external_body]
fn world_new() -> (r: hecs::World)
    ensures
        world_tree(r) == empty_tree(),
        world_parents(r) == no_parents(),
        world_parents_alive(r),
{
    hecs::World::new()
}

/// Calls `hecs::World::spawn` with a [`Children`] component: the new entity is
/// one that was not alive, and holds exactly those children. hecs panics when
/// it runs out of entity ids (2^32 of them), which is not stated here.
#[verifier::external_body]
fn world_spawn_with_children(w: &mut hecs::World, children: Vec<Element>) -> (e: Element)
    ensures
        !world_tree(*old(w)).dom().contains(e),
        world_tree(*final(w)) == world_tree(*old(w)).insert(e, Some(children@)),
        world_parents(*final(w)) == world_parents(*old(w)),
        world_parents_alive(*final(w)),
{
    w.spawn((Children(children),)).to_bits().get()
}

/// Calls `hecs::World::spawn` with no component: the new entity is one that was
/// not alive. hecs panics when it runs out of entity ids, which is not stated
/// here.
#[verifier::external_body]
fn world_spawn_empty(w: &mut hecs::World) -> (e: Element)
    ensures
        !world_tree(*old(w)).dom().contains(e),
        world_tree(*final(w)) == world_tree(*old(w)).insert(e, None),
        world_parents(*final(w)) == world_parents(*old(w)),
        world_parents_alive(*final(w)),
{
    w.spawn(()).to_bits().get()
}

/// Calls `hecs::World::contains` on the entity with bits `e` (none such when
/// `hecs::Entity::from_bits` refuses the bits).
#[verifier::external_body]
fn world_contains(w: &hecs::World, e: Element) -> (b: bool)
    ensures
        b == world_tree(*w).dom().contains(e),
{
    match hecs::Entity::from_bits(e) {
        Some(entity) => w.contains(entity),
        None => false,
    }
}

/// Calls `hecs::World::get::<&Children>` on the entity with bits `e` and copies
/// the children out; `None` when the entity is not alive or holds no children.
#[verifier::external_body]
fn world_children(w: &hecs::World, e: Element) -> (r: Option<Vec<Element>>)
    ensures
        match r {
            Some(v) => world_tree(*w).dom().contains(e) && world_tree(*w)[e] == Some(v@),
            None => !world_tree(*w).dom().contains(e) || world_tree(*w)[e] is None,
        },
{
    let entity = hecs::Entity::from_bits(e)?;
    let children = w.get::<&Children>(entity).ok()?;
    Some(children.0.clone())
}

/// Calls `hecs::World::despawn` on the entity with bits `e`: true and the entity
/// gone when it was alive, false and nothing changed when it was not. A world
/// holds finitely many entities.
#[verifier::external_body]
fn world_despawn(w: &mut hecs::World, e: Element) -> (b: bool)
    ensures
        b == world_tree(*old(w)).dom().contains(e),
        world_tree(*final(w)) == world_tree(*old(w)).remove(e),
        world_tree(*final(w)).dom().finite(),
        world_parents(*final(w)) == world_parents(*old(w)).remove(e),
        world_parents_alive(*final(w)),
{
    match hecs::Entity::from_bits(e) {
        Some(entity) => w.despawn(entity).is_ok(),
        None => false,
    }
}

/// Calls `hecs::World::insert_one` with a [`Children`] component on the live
/// entity with bits `e`: from then on it holds exactly those children (hecs
/// replaces a component of the same type) and nothing else changes.
#[verifier::external_body]
fn world_insert_children(w: &mut hecs::World, e: Element, children: Vec<Element>)
    requires
        world_tree(*old(w)).dom().contains(e),
    ensures
        world_tree(*final(w)) == world_tree(*old(w)).insert(e, Some(children@)),
        world_parents(*final(w)) == world_parents(*old(w)),
        world_parents_alive(*final(w)),
{
    if let Some(entity) = hecs::Entity::from_bits(e) {
        let _ = w.insert_one(entity, Children(children));
    }
}

/// Calls `hecs::World::insert_one` with a [`Parent`] component on the live
/// entity with bits `e`: from then on its parent is `p` (hecs replaces a
/// component of the same type) and nothing else changes.
#[verifier::external_body]
fn world_insert_parent(w: &mut hecs::World, e: Element, p: Element)
    requires
        world_tree(*old(w)).dom().contains(e),
    ensures
        world_tree(*final(w)) == world_tree(*old(w)),
        world_parents(*final(w)) == world_parents(*old(w)).insert(e, p),
        world_parents_alive(*final(w)),
{
    if let Some(entity) = hecs::Entity::from_bits(e) {
        let _ = w.insert_one(entity, Parent(p));
    }
}

/// Calls `hecs::World::get::<&Parent>` on the entity with bits `e`; `None`
/// when the entity is not alive or holds no parent.
#[verifier::external_body]
fn world_parent(w: &hecs::World, e: Element) -> (r: Option<Element>)
    ensures
        r == (if world_parents(*w).dom().contains(e) { Some(world_parents(*w)[e]) } else { None }),
{
    let entity = hecs::Entity::from_bits(e)?;
    let parent = w.get::<&Parent>(entity).ok()?;
    Some(parent.0)
}

/// The element world: the entities of the user interface and their children.
pub struct ElementCtx {
    world: hecs::World,
}

/// Every element alive in `new` is alive in `old`, with the same children.
pub open spec fn is_subtree(new: Map<Element, Option<Seq<Element>>>, old: Map<Element, Option<Seq<Element>>>) -> bool {
    forall|e: Element| #[trigger] new.dom().contains(e) ==> old.dom().contains(e) && new[e] == old[e]
}

/// No child of an element removed between `old` and `new` is alive in `new`.
pub open spec fn removal_closed(old: Map<Element, Option<Seq<Element>>>, new: Map<Element, Option<Seq<Element>>>) -> bool {
    forall|e: Element, i: int|
        #![trigger old[e]->0[i]]
        old.dom().contains(e) && !new.dom().contains(e) && old[e] is Some && 0 <= i < old[e]->0.len()
            ==> !new.dom().contains(old[e]->0[i])
}

/// `p` is a path through `t`: each element but the last is alive and holds the
/// next one among its children.
pub open spec fn is_path(t: Map<Element, Option<Seq<Element>>>, p: Seq<Element>) -> bool {
    &&& p.len() > 0
    &&& forall|k: int|
        #![trigger p[k]]
        0 <= k < p.len() - 1 ==> t.dom().contains(p[k]) && t[p[k]] is Some && t[p[k]]->0.contains(
            p[k + 1],
        )
}

/// `b` can be reached from `a` through children in `t`.
pub open spec fn reaches(t: Map<Element, Option<Seq<Element>>>, a: Element, b: Element) -> bool {
    exists|p: Seq<Element>| is_path(t, p) && p[0] == a && p.last() == b
}

proof fn lemma_path_lift(sub: Map<Element, Option<Seq<Element>>>, t: Map<Element, Option<Seq<Element>>>, p: Seq<Element>)
    requires
        is_subtree(sub, t),
        is_path(sub, p),
    ensures
        is_path(t, p),
{
    assert forall|k: int| 0 <= k < p.len() - 1 implies t.dom().contains(#[trigger] p[k]) && t[p[k]] is Some
        && t[p[k]]->0.contains(p[k + 1]) by {
        assert(sub.dom().contains(p[k]));
    }
}

proof fn lemma_path_prepend(t: Map<Element, Option<Seq<Element>>>, r: Element, p: Seq<Element>)
    requires
        is_path(t, p),
        t.dom().contains(r),
        t[r] is Some,
        t[r]->0.contains(p[0]),
    ensures
        is_path(t, seq![r] + p),
        (seq![r] + p)[0] == r,
        (seq![r] + p).last() == p.last(),
{
    let q = seq![r] + p;
    assert forall|k: int| 0 <= k < q.len() - 1 implies t.dom().contains(#[trigger] q[k]) && t[q[k]] is Some
        && t[q[k]]->0.contains(q[k + 1]) by {
        if k == 0 {
            assert(q[1] == p[0]);
        } else {
            assert(q[k] == p[k - 1]);
            assert(q[k + 1] == p[k]);
        }
    }
}

/// Lifts reachability from a subtree of `t` to `t`, and through a child of `r`.
proof fn lemma_reaches_through_child(
    sub: Map<Element, Option<Seq<Element>>>,
    t: Map<Element, Option<Seq<Element>>>,
    r: Element,
    c: Element,
    e: Element,
)
    requires
        is_subtree(sub, t),
        reaches(sub, c, e),
        t.dom().contains(r),
        t[r] is Some,
        t[r]->0.contains(c),
    ensures
        reaches(t, r, e),
{
    let p = choose|p: Seq<Element>| is_path(sub, p) && p[0] == c && p.last() == e;
    lemma_path_lift(sub, t, p);
    lemma_path_prepend(t, r, p);
    assert(is_path(t, seq![r] + p) && (seq![r] + p)[0] == r && (seq![r] + p).last() == e);
}

/// Every element on a path from a removed element is removed.
proof fn lemma_path_removed(
    before: Map<Element, Option<Seq<Element>>>,
    after: Map<Element, Option<Seq<Element>>>,
    p: Seq<Element>,
)
    requires
        is_path(before, p),
        !after.dom().contains(p[0]),
        removal_closed(before, after),
    ensures
        !after.dom().contains(p.last()),
    decreases p.len(),
{
    if p.len() > 1 {
        let q = p.subrange(1, p.len() as int);
        assert(before.dom().contains(p[0]) && before[p[0]] is Some && before[p[0]]->0.contains(p[1]));
        let i = before[p[0]]->0.index_of(p[1]);
        assert(before[p[0]]->0[i] == p[1]);
        assert(!after.dom().contains(p[1]));
        assert forall|k: int| 0 <= k < q.len() - 1 implies before.dom().contains(#[trigger] q[k])
            && before[q[k]] is Some && before[q[k]]->0.contains(q[k + 1]) by {
            assert(q[k] == p[k + 1]);
            assert(q[k + 1] == p[k + 2]);
        }
        assert(q[0] == p[1]);
        lemma_path_removed(before, after, q);
        assert(q.last() == p.last());
    }
}


impl ElementCtx {
    /// The elements alive, each with its children if it holds any.
    pub closed spec fn tree(self) -> Map<Element, Option<Seq<Element>>> {
        world_tree(self.world)
    }

    /// The parent of each element that has one.
    pub closed spec fn parents(self) -> Map<Element, Element> {
        world_parents(self.world)
    }

    /// Only live elements have a parent.
    pub open spec fn parents_alive(self) -> bool {
        self.parents().dom().subset_of(self.tree().dom())
    }

    /// An empty element world.
    pub fn new() -> (c: ElementCtx)
        ensures
            c.tree() == empty_tree(),
            c.parents() == no_parents(),
            c.parents_alive(),
    {
        ElementCtx { world: world_new() }
    }

    /// Spawns an element with the given children.
    pub fn spawn_node(&mut self, children: Vec<Element>) -> (e: Element)
        ensures
            !old(self).tree().dom().contains(e),
            final(self).tree() == old(self).tree().insert(e, Some(children@)),
            final(self).parents() == old(self).parents(),
            final(self).parents_alive(),
    {
        world_spawn_with_children(&mut self.world, children)
    }

    /// Spawns an element that holds no children.
    pub fn spawn_leaf(&mut self) -> (e: Element)
        ensures
            !old(self).tree().dom().contains(e),
            final(self).tree() == old(self).tree().insert(e, None),
            final(self).parents() == old(self).parents(),
            final(self).parents_alive(),
    {
        world_spawn_empty(&mut self.world)
    }

    /// Gives a live element exactly these children.
    pub(crate) fn set_children(&mut self, e: Element, children: Vec<Element>)
        requires
            old(self).tree().dom().contains(e),
        ensures
            final(self).tree() == old(self).tree().insert(e, Some(children@)),
            final(self).parents() == old(self).parents(),
            final(self).parents_alive(),
    {
        world_insert_children(&mut self.world, e, children)
    }

    /// Gives a live element the parent `p`.
    pub(crate) fn set_parent(&mut self, e: Element, p: Element)
        requires
            old(self).tree().dom().contains(e),
        ensures
            final(self).tree() == old(self).tree(),
            final(self).parents() == old(self).parents().insert(e, p),
            final(self).parents_alive(),
    {
        world_insert_parent(&mut self.world, e, p)
    }

    /// The parent of an element, when it has one.
    pub fn parent_of(&self, e: Element) -> (r: Option<Element>)
        ensures
            r == (if self.parents().dom().contains(e) { Some(self.parents()[e]) } else { None::<Element> }),
    {
        world_parent(&self.world, e)
    }

    /// Whether the element is alive.
    pub fn contains(&self, e: Element) -> (b: bool)
        ensures
            b == self.tree().dom().contains(e),
    {
        world_contains(&self.world, e)
    }

    /// The children of an element, when it is alive and holds children.
    pub fn children_of(&self, e: Element) -> (r: Option<Vec<Element>>)
        ensures
            match r {
                Some(v) => self.tree().dom().contains(e) && self.tree()[e] == Some(v@),
                None => !self.tree().dom().contains(e) || self.tree()[e] is None,
            },
    {
        world_children(&self.world, e)
    }

    /// Despawns `root` and, recursively, the children of every element it
    /// despawns.
    pub fn despawn_ui(&mut self, root: Element)
        ensures
            is_subtree(final(self).tree(), old(self).tree()),
            !final(self).tree().dom().contains(root),
            removal_closed(old(self).tree(), final(self).tree()),
            forall|e: Element|
                old(self).tree().dom().contains(e) && !final(self).tree().dom().contains(e) ==> #[trigger] reaches(
                    old(self).tree(),
                    root,
                    e,
                ),
            forall|e: Element|
                #![trigger old(self).tree().dom().contains(e)]
                old(self).tree().dom().contains(e) ==> (!final(self).tree().dom().contains(e)
                    <==> reaches(old(self).tree(), root, e)),
            final(self).parents() == old(self).parents().restrict(final(self).tree().dom()),
            final(self).parents_alive(),
        decreases old(self).tree().dom().len(),
    {
        let ghost t0 = self.tree();
        let ghost p0 = self.parents();
        let children = world_children(&self.world, root);
        let _ = world_despawn(&mut self.world, root);
        assert(t0.dom() =~= self.tree().dom().insert(root) || t0.dom() =~= self.tree().dom());
        assert(self.parents() =~= p0.restrict(self.tree().dom()));
        match children {
            None => {
                assert(is_subtree(self.tree(), t0));
                assert(removal_closed(t0, self.tree()));
                let ghost single = seq![root];
                assert(single[0] == root && single.last() == root);
                assert(is_path(t0, single));
                assert(reaches(t0, root, root));
            },
            Some(children) => {
                assert(t0.dom().contains(root));
                assert(self.tree().dom() =~= t0.dom().remove(root));
                let ghost single = seq![root];
                assert(single[0] == root && single.last() == root);
                assert(is_path(t0, single));
                assert(reaches(t0, root, root));
                let mut i: usize = 0;
                while i < children.len()
                    invariant
                        i <= children@.len(),
                        t0 == old(self).tree(),
                        p0 == old(self).parents(),
                        self.parents() == p0.restrict(self.tree().dom()),
                        self.parents_alive(),
                        t0.dom().contains(root),
                        t0[root] == Some(children@),
                        t0.dom().finite(),
                        self.tree().dom().finite(),
                        self.tree().dom().len() < t0.dom().len(),
                        is_subtree(self.tree(), t0),
                        !self.tree().dom().contains(root),
                        forall|j: int| 0 <= j < i ==> !self.tree().dom().contains(#[trigger] children@[j]),
                        forall|e: Element, k: int|
                            #![trigger t0[e]->0[k]]
                            t0.dom().contains(e) && e != root && !self.tree().dom().contains(e)
                                && t0[e] is Some && 0 <= k < t0[e]->0.len()
                                ==> !self.tree().dom().contains(t0[e]->0[k]),
                        forall|e: Element|
                            t0.dom().contains(e) && !self.tree().dom().contains(e) ==> #[trigger] reaches(
                                t0,
                                root,
                                e,
                            ),
                    decreases children.len() - i,
                {
                    let ghost before = self.tree();
                    self.despawn_ui(children[i]);
                    proof {
                        assert(self.parents() =~= p0.restrict(self.tree().dom()));
                        assert(self.tree().dom().subset_of(before.dom()));
                        vstd::set_lib::lemma_len_subset(self.tree().dom(), before.dom());
                        assert forall|e: Element|
                            t0.dom().contains(e) && !self.tree().dom().contains(e) implies #[trigger] reaches(
                                t0,
                                root,
                                e,
                            ) by {
                            if before.dom().contains(e) {
                                assert(reaches(before, children@[i as int], e));
                                assert(children@.contains(children@[i as int]));
                                lemma_reaches_through_child(before, t0, root, children@[i as int], e);
                            }
                        }
                    }
                    i = i + 1;
                }
            },
        }
        proof {
            assert forall|e: Element|
                #![trigger t0.dom().contains(e)]
                t0.dom().contains(e) implies (!self.tree().dom().contains(e) <==> reaches(t0, root, e)) by {
                if reaches(t0, root, e) {
                    let p = choose|p: Seq<Element>| is_path(t0, p) && p[0] == root && p.last() == e;
                    lemma_path_removed(t0, self.tree(), p);
                }
            }
        }
    }
}

} // verus!
