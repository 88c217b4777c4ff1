//! A node store supporting parent-scoped insertion and lookup.
//!
//! Nodes live in a dense vector and are addressed by their index, so ids are
//! stable and comparable. Every node records its optional parent; a node's
//! parent always has a smaller index, which makes the forest acyclic by
//! construction. The arena keeps a "current scope": new nodes become children
//! of the scope (or roots when the scope is unset), and the scope anchors the
//! scope-relative and subtree traversals.

use vstd::prelude::*;

verus! {

/// One slot of the arena: the caller's data plus the parent link.
#[derive(Debug)]
pub struct ArenaNode<T> {
    pub data: T,
    pub parent: Option<usize>,
}

/// A scoped arena over nodes of type `T`.
pub struct ScopedArena<T> {
    nodes: Vec<ArenaNode<T>>,
    scope: Option<usize>,
}

/// The parent links form a forest: every parent index is smaller than the
/// index of its child.
pub open spec fn parents_acyclic<T>(nodes: Seq<ArenaNode<T>>) -> bool {
    forall|j: int|
        0 <= j < nodes.len() && nodes[j].parent is Some ==> nodes[j].parent->0 < j
}

/// The indices `from..nodes.len()` whose parent link equals `p`, in
/// increasing order. `child_indices_from(nodes, p, 0)` enumerates the whole
/// sibling list of scope `p`.
pub open spec fn child_indices_from<T>(
    nodes: Seq<ArenaNode<T>>,
    p: Option<usize>,
    from: int,
) -> Seq<usize>
    decreases nodes.len() - from,
{
    if from < 0 || from >= nodes.len() {
        Seq::empty()
    } else if nodes[from].parent == p {
        seq![from as usize] + child_indices_from(nodes, p, from + 1)
    } else {
        child_indices_from(nodes, p, from + 1)
    }
}

/// The preorder traversal of the subtree rooted at `i`: first `i`, then the
/// subtrees of `i`'s children in sibling order. Children are sought from
/// index `i + 1` upward, which finds all of them when the parent links are
/// acyclic.
pub open spec fn preorder_subtree<T>(nodes: Seq<ArenaNode<T>>, i: int) -> Seq<usize>
    decreases nodes.len() - i, 0int,
{
    if i < 0 || i >= nodes.len() {
        Seq::empty()
    } else {
        seq![i as usize] + preorder_scan(nodes, Some(i as usize), i + 1)
    }
}

/// The concatenation, in sibling order, of the preorder traversals of every
/// subtree whose root lies at or after `from` and has parent `p`.
pub open spec fn preorder_scan<T>(
    nodes: Seq<ArenaNode<T>>,
    p: Option<usize>,
    from: int,
) -> Seq<usize>
    decreases nodes.len() - from, 1int,
{
    if from < 0 || from >= nodes.len() {
        Seq::empty()
    } else if nodes[from].parent == p {
        preorder_subtree(nodes, from) + preorder_scan(nodes, p, from + 1)
    } else {
        preorder_scan(nodes, p, from + 1)
    }
}

impl<T> ScopedArena<T> {
    /// The stored nodes, for specification purposes.
    pub closed spec fn spec_nodes(&self) -> Seq<ArenaNode<T>> {
        self.nodes@
    }

    /// The current scope, for specification purposes.
    pub closed spec fn spec_scope(&self) -> Option<usize> {
        self.scope
    }

    /// Well-formedness: the scope points at a stored node and the parent
    /// links form a forest.
    pub open spec fn wf(&self) -> bool {
        &&& (self.spec_scope() is Some ==> self.spec_scope()->0 < self.spec_nodes().len())
        &&& parents_acyclic(self.spec_nodes())
    }

    pub fn new() -> (r: Self)
        ensures
            r.spec_nodes() == Seq::<ArenaNode<T>>::empty(),
            r.spec_scope() is None,
            r.wf(),
    {
        ScopedArena { nodes: Vec::new(), scope: None }
    }

    /// Sets the current scope and returns the previous scope.
    pub fn set_scope(&mut self, scope: Option<usize>) -> (prev: Option<usize>)
        requires
            old(self).wf(),
            scope is Some ==> scope->0 < old(self).spec_nodes().len(),
        ensures
            prev == old(self).spec_scope(),
            final(self).spec_scope() == scope,
            final(self).spec_nodes() == old(self).spec_nodes(),
            final(self).wf(),
    {
        let prev = self.scope;
        self.scope = scope;
        prev
    }

    /// Returns the current scope.
    pub fn scope(&self) -> (r: Option<usize>)
        ensures
            r == self.spec_scope(),
    {
        self.scope
    }

    /// The number of stored nodes.
    pub fn len(&self) -> (r: usize)
        ensures
            r == self.spec_nodes().len(),
    {
        self.nodes.len()
    }

    /// Creates a new node with the given data in the current scope and
    /// returns its id. If a scope is set, the node becomes a child of the
    /// scope; otherwise it is a root.
    pub fn new_node_in_scope(&mut self, data: T) -> (id: usize)
        requires
            old(self).wf(),
        ensures
            id == old(self).spec_nodes().len(),
            final(self).spec_nodes() == old(self).spec_nodes().push(
                ArenaNode { data, parent: old(self).spec_scope() },
            ),
            final(self).spec_scope() == old(self).spec_scope(),
            final(self).wf(),
    {
        let id = self.nodes.len();
        self.nodes.push(ArenaNode { data, parent: self.scope });
        id
    }

    /// The data of node `id`.
    pub fn get(&self, id: usize) -> (r: &T)
        requires
            id < self.spec_nodes().len(),
        ensures
            *r == self.spec_nodes()[id as int].data,
    {
        &self.nodes[id].data
    }

    /// Mutable access to the data of node `id`; the parent link is untouched.
    pub fn get_mut(&mut self, id: usize) -> (r: &mut T)
        requires
            old(self).wf(),
            id < old(self).spec_nodes().len(),
        ensures
            *r == old(self).spec_nodes()[id as int].data,
            final(self).spec_nodes() == old(self).spec_nodes().update(
                id as int,
                ArenaNode { data: *final(r), parent: old(self).spec_nodes()[id as int].parent },
            ),
            final(self).spec_scope() == old(self).spec_scope(),
            final(self).wf(),
    {
        let node = &mut self.nodes[id];
        &mut node.data
    }

    /// The parent of node `id`, if any.
    pub fn parent_of(&self, id: usize) -> (r: Option<usize>)
        requires
            id < self.spec_nodes().len(),
        ensures
            r == self.spec_nodes()[id as int].parent,
    {
        self.nodes[id].parent
    }

    /// The ids of the direct children of the current scope, in insertion
    /// order; the roots when no scope is set.
    pub fn nodes_in_scope(&self) -> (r: Vec<usize>)
        requires
            self.wf(),
        ensures
            r@ == child_indices_from(self.spec_nodes(), self.spec_scope(), 0),
    {
        self.children_of(self.scope)
    }

    /// The ids of the roots (nodes without a parent), in insertion order.
    pub fn root_node_ids(&self) -> (r: Vec<usize>)
        requires
            self.wf(),
        ensures
            r@ == child_indices_from(self.spec_nodes(), None::<usize>, 0),
    {
        self.children_of(None)
    }

    /// The ids of the direct children of node `id`, in insertion order.
    pub fn children(&self, id: usize) -> (r: Vec<usize>)
        requires
            self.wf(),
            id < self.spec_nodes().len(),
        ensures
            r@ == child_indices_from(self.spec_nodes(), Some(id), 0),
    {
        self.children_of(Some(id))
    }

    fn children_of(&self, p: Option<usize>) -> (r: Vec<usize>)
        requires
            self.wf(),
        ensures
            r@ == child_indices_from(self.spec_nodes(), p, 0),
    {
        let n = self.nodes.len();
        let mut r: Vec<usize> = Vec::new();
        let mut j: usize = 0;
        while j < n
            invariant
                n == self.spec_nodes().len(),
                j <= n,
                self.wf(),
                r@ + child_indices_from(self.spec_nodes(), p, j as int) == child_indices_from(
                    self.spec_nodes(),
                    p,
                    0,
                ),
            decreases n - j,
        {
            if option_eq(self.nodes[j].parent, p) {
                r.push(j);
            }
            j += 1;
        }
        r
    }

    /// The ids of every node in the subtree under the current scope, in
    /// preorder; the whole forest in preorder when no scope is set.
    pub fn descendants_from_scope(&self) -> (r: Vec<usize>)
        requires
            self.wf(),
        ensures
            r@ == match self.spec_scope() {
                Some(s) => preorder_subtree(self.spec_nodes(), s as int),
                None => preorder_scan(self.spec_nodes(), None::<usize>, 0),
            },
    {
        match self.scope {
            Some(s) => self.subtree_ids(s),
            None => self.preorder_scan_ids(None, 0),
        }
    }

    /// The preorder traversal of the subtree rooted at `id`.
    pub fn subtree_ids(&self, id: usize) -> (r: Vec<usize>)
        requires
            self.wf(),
            id < self.spec_nodes().len(),
        ensures
            r@ == preorder_subtree(self.spec_nodes(), id as int),
        decreases self.spec_nodes().len() - id, 0int,
    {
        let n = self.nodes.len();
        assert(id < n);
        let mut r: Vec<usize> = Vec::new();
        r.push(id);
        let mut rest = self.preorder_scan_ids(Some(id), id + 1);
        r.append(&mut rest);
        assert(r@ == preorder_subtree(self.spec_nodes(), id as int));
        r
    }

    fn preorder_scan_ids(&self, p: Option<usize>, from: usize) -> (r: Vec<usize>)
        requires
            self.wf(),
        ensures
            r@ == preorder_scan(self.spec_nodes(), p, from as int),
        decreases self.spec_nodes().len() - from, 1int,
    {
        if from >= self.nodes.len() {
            Vec::new()
        } else if option_eq(self.nodes[from].parent, p) {
            let mut r = self.subtree_ids(from);
            let mut rest = self.preorder_scan_ids(p, from + 1);
            r.append(&mut rest);
            r
        } else {
            self.preorder_scan_ids(p, from + 1)
        }
    }

    /// Consumes the arena and returns the underlying node vector.
    pub fn into_inner(self) -> (r: Vec<ArenaNode<T>>)
        ensures
            r@ == self.spec_nodes(),
    {
        self.nodes
    }
}

/// Equality of two optional ids.
fn option_eq(a: Option<usize>, b: Option<usize>) -> (r: bool)
    ensures
        r == (a == b),
{
    match (a, b) {
        (Some(x), Some(y)) => x == y,
        (None, None) => true,
        _ => false,
    }
}

} // verus!
