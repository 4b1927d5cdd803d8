use crate::managers::GlobalId;
use vstd::prelude::*;

verus! {

/// A node of the scene graph. Its children are handles of other nodes, kept
/// without repetition; `parent` is a plain handle that nothing here keeps in
/// step with any node's children.
#[derive(Debug)]
pub struct SceneNode {
    pub drawn: bool,
    pub collidable: bool,
    pub remove: bool,
    pub node_type: String,
    pub parent: Option<GlobalId>,
    id: GlobalId,
    children: Vec<GlobalId>,
}

/// Index of `id` in `ids`, if it occurs there.
fn position_of(ids: &Vec<GlobalId>, id: GlobalId) -> (r: Option<usize>)
    ensures
        match r {
            Some(i) => i < ids@.len() && ids@[i as int] == id,
            None => !ids@.contains(id),
        },
{
    let mut i: usize = 0;
    while i < ids.len()
        invariant
            i <= ids@.len(),
            forall|j: int| 0 <= j < i ==> ids@[j] != id,
        decreases ids@.len() - i,
    {
        if ids[i] == id {
            return Some(i);
        }
        i = i + 1;
    }
    None
}

/// What a node holds, as mathematical values.
pub struct SceneNodeView {
    pub drawn: bool,
    pub collidable: bool,
    pub remove: bool,
    pub node_type: Seq<char>,
    pub parent: Option<GlobalId>,
    pub id: GlobalId,
    pub children: Seq<GlobalId>,
}

impl View for SceneNode {
    type V = SceneNodeView;

    closed spec fn view(&self) -> SceneNodeView {
        SceneNodeView {
            drawn: self.drawn,
            collidable: self.collidable,
            remove: self.remove,
            node_type: self.node_type@,
            parent: self.parent,
            id: self.id,
            children: self.children@,
        }
    }
}

/// Taking out the element at `i` of a sequence without repetition takes that
/// element out of its set.
proof fn lemma_remove_to_set(s: Seq<GlobalId>, i: int)
    requires
        s.no_duplicates(),
        0 <= i < s.len(),
    ensures
        s.remove(i).to_set() == s.to_set().remove(s[i]),
{
    let r = s.remove(i);
    assert forall|x: GlobalId| r.contains(x) implies s.contains(x) && x != s[i] by {
        let k = choose|k: int| 0 <= k < r.len() && r[k] == x;
        if k < i {
            assert(s[k] == x);
        } else {
            assert(s[k + 1] == x);
        }
    }
    assert forall|x: GlobalId| s.contains(x) && x != s[i] implies r.contains(x) by {
        let k = choose|k: int| 0 <= k < s.len() && s[k] == x;
        if k < i {
            assert(r[k] == x);
        } else {
            assert(r[k - 1] == x);
        }
    }
    assert(r.to_set() =~= s.to_set().remove(s[i]));
}

impl SceneNode {
    #[verifier::type_invariant]
    spec fn children_distinct(self) -> bool {
        self.children@.no_duplicates()
    }

    /// A node as it is created for handle `id`: type "Undefined", no parent,
    /// no children, every flag clear.
    pub open spec fn is_fresh(self, id: GlobalId) -> bool {
        &&& self@.id == id
        &&& self@.node_type == "Undefined"@
        &&& self@.parent is None
        &&& self@.children.len() == 0
        &&& !self@.drawn
        &&& !self@.collidable
        &&& !self@.remove
    }

    /// The node's children as a set.
    pub open spec fn child_set(self) -> Set<GlobalId> {
        self@.children.to_set()
    }

    /// `self` and `other` agree on everything but their children.
    pub open spec fn same_apart_from_children(self, other: SceneNode) -> bool {
        self@ == SceneNodeView { children: self@.children, ..other@ }
    }

    pub fn new(id: GlobalId) -> (r: Self)
        ensures
            r.is_fresh(id),
    {
        proof {
            reveal_strlit("Undefined");
        }
        SceneNode {
            id,
            node_type: "Undefined".to_owned(),
            parent: None,
            drawn: false,
            collidable: false,
            remove: false,
            children: Vec::new(),
        }
    }

    pub fn id(&self) -> (r: GlobalId)
        ensures
            r == self@.id,
    {
        self.id
    }

    pub fn children(&self) -> (r: &Vec<GlobalId>)
        ensures
            r@ == self@.children,
            r@.no_duplicates(),
    {
        proof {
            use_type_invariant(self);
        }
        &self.children
    }

    /// `next` is what `attach_child(id)` leaves on `self`: `id` is appended to
    /// the children unless it is already there.
    pub open spec fn attaches(self, next: SceneNode, id: GlobalId) -> bool {
        &&& next@.children == (if self@.children.contains(id) {
            self@.children
        } else {
            self@.children.push(id)
        })
        &&& next.child_set() == self.child_set().insert(id)
        &&& next.same_apart_from_children(self)
        &&& next@.children.no_duplicates()
    }

    /// `next` and `r` are what `detach_child(id)` leaves on `self` and
    /// returns: `id` is taken out of the children, and handed back exactly when
    /// it was among them.
    pub open spec fn detaches(self, next: SceneNode, id: GlobalId, r: Option<GlobalId>) -> bool {
        &&& r == (if self@.children.contains(id) {
            Some(id)
        } else {
            None::<GlobalId>
        })
        &&& next.child_set() == self.child_set().remove(id)
        &&& next.same_apart_from_children(self)
        &&& next@.children.no_duplicates()
    }

    /// Reads whether the node is to be drawn.
    pub fn drawn(&self) -> (r: bool)
        ensures
            r == self@.drawn,
    {
        self.drawn
    }

    /// Sets whether the node is to be drawn; nothing else changes.
    pub fn set_drawn(&mut self, value: bool)
        ensures
            final(self)@ == (SceneNodeView { drawn: value, ..old(self)@ }),
    {
        proof {
            use_type_invariant(&*self);
        }
        self.drawn = value;
    }

    /// Reads whether the node takes part in collisions.
    pub fn collidable(&self) -> (r: bool)
        ensures
            r == self@.collidable,
    {
        self.collidable
    }

    /// Sets whether the node takes part in collisions; nothing else changes.
    pub fn set_collidable(&mut self, value: bool)
        ensures
            final(self)@ == (SceneNodeView { collidable: value, ..old(self)@ }),
    {
        proof {
            use_type_invariant(&*self);
        }
        self.collidable = value;
    }

    /// Reads whether the node is marked for removal.
    pub fn remove(&self) -> (r: bool)
        ensures
            r == self@.remove,
    {
        self.remove
    }

    /// Sets whether the node is marked for removal; nothing else changes.
    pub fn set_remove(&mut self, value: bool)
        ensures
            final(self)@ == (SceneNodeView { remove: value, ..old(self)@ }),
    {
        proof {
            use_type_invariant(&*self);
        }
        self.remove = value;
    }

    /// Reads the node's type tag.
    pub fn node_type(&self) -> (r: &String)
        ensures
            r@ == self@.node_type,
    {
        &self.node_type
    }

    /// Sets the node's type tag; nothing else changes.
    pub fn set_node_type(&mut self, value: String)
        ensures
            final(self)@ == (SceneNodeView { node_type: value@, ..old(self)@ }),
    {
        proof {
            use_type_invariant(&*self);
        }
        self.node_type = value;
    }

    /// Reads the node's parent handle.
    pub fn parent(&self) -> (r: Option<GlobalId>)
        ensures
            r == self@.parent,
    {
        self.parent
    }

    /// Sets the node's parent handle; nothing else changes, and no other node
    /// is touched.
    pub fn set_parent(&mut self, value: Option<GlobalId>)
        ensures
            final(self)@ == (SceneNodeView { parent: value, ..old(self)@ }),
    {
        proof {
            use_type_invariant(&*self);
        }
        self.parent = value;
    }

    /// Adds `id` to the children; a handle already there is left as it is.
    pub fn attach_child(&mut self, id: GlobalId)
        ensures
            old(self).attaches(*final(self), id),
    {
        proof {
            use_type_invariant(&*self);
        }
        if position_of(&self.children, id).is_none() {
            let mut children: Vec<GlobalId> = Vec::new();
            std::mem::swap(&mut children, &mut self.children);
            children.push(id);
            self.children = children;
        }
        proof {
            old(self)@.children.lemma_push_to_set_commute(id);
            assert(self.child_set() =~= old(self).child_set().insert(id));
        }
    }

    /// Takes `id` out of the children and hands it back, or returns `None`
    /// when it is not among them.
    pub fn detach_child(&mut self, id: GlobalId) -> (r: Option<GlobalId>)
        ensures
            old(self).detaches(*final(self), id, r),
    {
        proof {
            use_type_invariant(&*self);
        }
        match position_of(&self.children, id) {
            Some(i) => {
                let mut children: Vec<GlobalId> = Vec::new();
                std::mem::swap(&mut children, &mut self.children);
                let taken = children.remove(i);
                self.children = children;
                proof {
                    lemma_remove_to_set(old(self)@.children, i as int);
                    assert(self.child_set() =~= old(self).child_set().remove(id));
                }
                Some(taken)
            },
            None => {
                assert(self.child_set() =~= old(self).child_set().remove(id));
                None
            },
        }
    }
}

/// Attaching the same child twice leaves it among the children exactly once.
pub proof fn lemma_attach_twice_keeps_one(n0: SceneNode, n1: SceneNode, n2: SceneNode, b: GlobalId)
    requires
        n0.attaches(n1, b),
        n1.attaches(n2, b),
    ensures
        exists|i: int|
            0 <= i < n2@.children.len() && n2@.children[i] == b && forall|j: int|
                0 <= j < n2@.children.len() && #[trigger] n2@.children[j] == b ==> j == i,
{
    assert(n1@.children.contains(b)) by {
        if !n0@.children.contains(b) {
            assert(n1@.children[n1@.children.len() - 1] == b);
        }
    }
    let i = choose|i: int| 0 <= i < n2@.children.len() && n2@.children[i] == b;
    assert(forall|j: int|
        0 <= j < n2@.children.len() && #[trigger] n2@.children[j] == b ==> j == i);
}

/// Detaching a child just attached hands it back and leaves it out of the
/// children; detaching it again hands back nothing.
pub proof fn lemma_detach_after_attach(
    n0: SceneNode,
    n1: SceneNode,
    n2: SceneNode,
    n3: SceneNode,
    b: GlobalId,
    r1: Option<GlobalId>,
    r2: Option<GlobalId>,
)
    requires
        n0.attaches(n1, b),
        n1.detaches(n2, b, r1),
        n2.detaches(n3, b, r2),
    ensures
        r1 == Some(b),
        !n2.child_set().contains(b),
        r2 is None,
{
    assert(n1@.children.contains(b)) by {
        if !n0@.children.contains(b) {
            assert(n1@.children[n1@.children.len() - 1] == b);
        }
    }
    assert(!n2@.children.contains(b)) by {
        if n2@.children.contains(b) {
            assert(n2.child_set().contains(b));
        }
    }
}

impl Clone for SceneNode {
    fn clone(&self) -> (r: SceneNode) {
        proof {
            use_type_invariant(self);
        }
        let children = self.children.clone();
        assert(children@ =~= self.children@);
        SceneNode {
            drawn: self.drawn,
            collidable: self.collidable,
            remove: self.remove,
            node_type: self.node_type.clone(),
            parent: self.parent,
            id: self.id,
            children,
        }
    }
}

impl PartialEq for SceneNode {
    fn eq(&self, other: &SceneNode) -> (r: bool) {
        self.id == other.id
    }
}

impl vstd::std_specs::cmp::PartialEqSpecImpl for SceneNode {
    open spec fn obeys_eq_spec() -> bool {
        true
    }

    open spec fn eq_spec(&self, other: &SceneNode) -> bool {
        self@.id == other@.id
    }
}

} // verus!
