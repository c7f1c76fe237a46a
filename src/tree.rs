use vstd::prelude::*;

verus! {

/// A node's place in its tree.
pub type NodeRef = usize;

/// One node: its value, the node it hangs from (if any), and the nodes that
/// hang from it, in the order they were added.
#[derive(Debug)]
pub struct NodeData<T> {
    pub value: T,
    pub parent: Option<NodeRef>,
    pub children: Vec<NodeRef>,
}

pub struct NodeView<T> {
    pub value: T,
    pub parent: Option<NodeRef>,
    pub children: Seq<NodeRef>,
}

impl<T> View for NodeData<T> {
    type V = NodeView<T>;

    open spec fn view(&self) -> NodeView<T> {
        NodeView { value: self.value, parent: self.parent, children: self.children@ }
    }
}

/// The nodes of a forest, each known by its place. A child holds its parent
/// by place only; the parent holds its children.
#[derive(Debug)]
pub struct Tree<T> {
    nodes: Vec<NodeData<T>>,
}

impl<T> View for Tree<T> {
    type V = Seq<NodeView<T>>;

    closed spec fn view(&self) -> Seq<NodeView<T>> {
        self.nodes@.map_values(|n: NodeData<T>| n@)
    }
}

/// The parent and children that `n` names are below `len`.
pub open spec fn node_wf<T>(len: nat, n: NodeView<T>) -> bool {
    &&& (n.parent matches Some(p) ==> p < len)
    &&& forall|j: int| 0 <= j < n.children.len() ==> n.children[j] < len
}

/// Every parent and child that a node names is a node of the tree.
pub open spec fn tree_wf<T>(v: Seq<NodeView<T>>) -> bool {
    forall|i: int| 0 <= i < v.len() ==> node_wf(v.len(), #[trigger] v[i])
}

/// `v` once `c` is added under `p`: `p` lists `c` last among its children,
/// and `c` names `p` as its parent.
pub open spec fn with_edge<T>(v: Seq<NodeView<T>>, p: NodeRef, c: NodeRef) -> Seq<NodeView<T>> {
    let v1 = v.update(p as int, NodeView { children: v[p as int].children.push(c), ..v[p as int] });
    v1.update(c as int, NodeView { parent: Some(p), ..v1[c as int] })
}

impl<T> Tree<T> {
    /// A tree with no nodes.
    pub fn new() -> (r: Tree<T>)
        ensures
            r@ == Seq::<NodeView<T>>::empty(),
            tree_wf(r@),
    {
        let r = Tree { nodes: Vec::new() };
        proof {
            assert(r@ =~= Seq::<NodeView<T>>::empty());
        }
        r
    }

    /// Number of nodes.
    pub fn len(&self) -> (r: usize)
        ensures
            r == self@.len(),
    {
        self.nodes.len()
    }

    /// The node at `n`.
    pub fn node(&self, n: NodeRef) -> (r: &NodeData<T>)
        requires
            n < self@.len(),
        ensures
            r@ == self@[n as int],
    {
        &self.nodes[n]
    }
}

/// A handle on one node of a tree.
#[derive(Debug, Clone, Copy)]
pub struct NodeRefHolder {
    pub strong_ref: NodeRef,
}

impl NodeRefHolder {
    /// Adds a node holding `value`, with no parent and no children.
    pub fn new<T>(tree: &mut Tree<T>, value: T) -> (r: NodeRefHolder)
        requires
            old(tree)@.len() < usize::MAX,
        ensures
            r.strong_ref == old(tree)@.len(),
            final(tree)@ == old(tree)@.push(
                NodeView { value, parent: None, children: Seq::empty() },
            ),
            tree_wf(old(tree)@) ==> tree_wf(final(tree)@),
    {
        let r = NodeRefHolder { strong_ref: tree.nodes.len() };
        let node = NodeData { value, parent: None, children: Vec::new() };
        proof {
            assert(tree.nodes@.push(node).map_values(|n: NodeData<T>| n@) =~= tree@.push(node@));
            assert(node@.children =~= Seq::<NodeRef>::empty());
        }
        tree.nodes.push(node);
        r
    }

    /// The place of the held node.
    pub fn get_internal_ref_copy(&self) -> (r: NodeRef)
        ensures
            r == self.strong_ref,
    {
        self.strong_ref
    }

    /// Adds a node holding `value` under the held node and returns its place.
    pub fn add_child<T>(&self, tree: &mut Tree<T>, value: T) -> (r: NodeRef)
        requires
            self.strong_ref < old(tree)@.len(),
            old(tree)@.len() < usize::MAX,
        ensures
            r == old(tree)@.len(),
            final(tree)@ == with_edge(
                old(tree)@.push(NodeView { value, parent: None, children: Seq::empty() }),
                self.strong_ref,
                r,
            ),
            tree_wf(old(tree)@) ==> tree_wf(final(tree)@),
    {
        let child = NodeRefHolder::new(tree, value);
        self.add_child_and_update_its_parent(tree, &child);
        child.get_internal_ref_copy()
    }

    /// Lists `child` last among the held node's children, and makes the
    /// held node its parent.
    pub fn add_child_and_update_its_parent<T>(&self, tree: &mut Tree<T>, child: &NodeRefHolder)
        requires
            self.strong_ref < old(tree)@.len(),
            child.strong_ref < old(tree)@.len(),
        ensures
            final(tree)@ == with_edge(old(tree)@, self.strong_ref, child.strong_ref),
            tree_wf(old(tree)@) ==> tree_wf(final(tree)@),
    {
        let p = self.strong_ref;
        let c = child.strong_ref;
        let ghost v = tree@;
        tree.nodes[p].children.push(c);
        proof {
            assert(tree@ =~= v.update(
                p as int,
                NodeView { children: v[p as int].children.push(c), ..v[p as int] },
            ));
        }
        let ghost v1 = tree@;
        tree.nodes[c].parent = Some(p);
        proof {
            assert(tree@ =~= v1.update(c as int, NodeView { parent: Some(p), ..v1[c as int] }));
            let w = tree@;
            if tree_wf(v) {
                assert forall|i: int| 0 <= i < w.len() implies node_wf(w.len(), #[trigger] w[i]) by {
                    if i != p as int && i != c as int {
                        assert(w[i] == v[i]);
                    }
                }
            }
        }
    }

    /// Whether the held node has a parent.
    pub fn has_parent<T>(&self, tree: &Tree<T>) -> (r: bool)
        requires
            self.strong_ref < tree@.len(),
        ensures
            r == tree@[self.strong_ref as int].parent is Some,
    {
        self.get_parent(tree).is_some()
    }

    /// The place of the held node's parent, if it has one.
    pub fn get_parent<T>(&self, tree: &Tree<T>) -> (r: Option<NodeRef>)
        requires
            self.strong_ref < tree@.len(),
        ensures
            r == tree@[self.strong_ref as int].parent,
    {
        tree.nodes[self.strong_ref].parent
    }
}

} // verus!
