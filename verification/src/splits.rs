//! Split pane layout: a binary tree whose leaves are panes.

use vstd::prelude::*;

verus! {

/// Direction of a split.
#[derive(Debug, Clone, Copy, PartialEq, Eq, Structural)]
pub enum SplitDirection {
    Horizontal,
    Vertical,
}

/// Bit pattern of the `f32` ratio 0.5, the ratio of every new split.
pub const HALF_RATIO_BITS: u32 = 0x3F00_0000;

/// A node in the split layout tree.
#[derive(Debug)]
pub enum SplitNode {
    /// A leaf node containing a pane.
    Leaf {
        /// The pane index.
        pane_id: usize,
    },
    /// An internal node with two children.
    Split {
        /// Split direction.
        direction: SplitDirection,
        /// Split ratio (0.0 to 1.0) as the bit pattern of an `f32`
        /// (`f32::to_bits`).
        ratio_bits: u32,
        /// Left/top child.
        first: Box<SplitNode>,
        /// Right/bottom child.
        second: Box<SplitNode>,
    },
}

/// The tree after splitting every leaf showing `target`: such a leaf becomes
/// a split in `direction` with ratio 0.5, the old pane first and `new_pane`
/// second. Other nodes keep their shape.
pub open spec fn split_tree(
    node: SplitNode,
    target: usize,
    direction: SplitDirection,
    new_pane: usize,
) -> SplitNode
    decreases node,
{
    match node {
        SplitNode::Leaf { pane_id } => if pane_id == target {
            SplitNode::Split {
                direction,
                ratio_bits: HALF_RATIO_BITS,
                first: Box::new(SplitNode::Leaf { pane_id }),
                second: Box::new(SplitNode::Leaf { pane_id: new_pane }),
            }
        } else {
            SplitNode::Leaf { pane_id }
        },
        SplitNode::Split { direction: dir, ratio_bits, first, second } => SplitNode::Split {
            direction: dir,
            ratio_bits,
            first: Box::new(split_tree(*first, target, direction, new_pane)),
            second: Box::new(split_tree(*second, target, direction, new_pane)),
        },
    }
}

/// The panes of a tree, left to right (first child before second).
pub open spec fn leaves(node: SplitNode) -> Seq<usize>
    decreases node,
{
    match node {
        SplitNode::Leaf { pane_id } => seq![pane_id],
        SplitNode::Split { first, second, .. } => leaves(*first) + leaves(*second),
    }
}

/// `panes` with `new_pane` inserted right after every occurrence of `target`.
pub open spec fn insert_after_each(panes: Seq<usize>, target: usize, new_pane: usize) -> Seq<usize>
    decreases panes.len(),
{
    if panes.len() == 0 {
        Seq::empty()
    } else {
        let rest = insert_after_each(panes.drop_first(), target, new_pane);
        if panes[0] == target {
            seq![panes[0], new_pane] + rest
        } else {
            seq![panes[0]] + rest
        }
    }
}

proof fn lemma_insert_after_each_concat(a: Seq<usize>, b: Seq<usize>, target: usize, new_pane: usize)
    ensures
        insert_after_each(a + b, target, new_pane) == insert_after_each(a, target, new_pane)
            + insert_after_each(b, target, new_pane),
    decreases a.len(),
{
    if a.len() == 0 {
        assert(a + b =~= b);
    } else {
        lemma_insert_after_each_concat(a.drop_first(), b, target, new_pane);
        assert((a + b).drop_first() =~= a.drop_first() + b);
    }
}

/// Splitting shows the new pane right after each pane it split, and changes
/// the order of nothing else.
pub proof fn law_split_inserts_new_pane(
    node: SplitNode,
    target: usize,
    direction: SplitDirection,
    new_pane: usize,
)
    ensures
        leaves(split_tree(node, target, direction, new_pane)) == insert_after_each(
            leaves(node),
            target,
            new_pane,
        ),
    decreases node,
{
    match node {
        SplitNode::Leaf { pane_id } => {
            let t = split_tree(node, target, direction, new_pane);
            let e = insert_after_each(seq![pane_id], target, new_pane);
            assert(leaves(node) == seq![pane_id]);
            assert(seq![pane_id].drop_first() =~= Seq::<usize>::empty());
            assert(insert_after_each(Seq::<usize>::empty(), target, new_pane) == Seq::<usize>::empty());
            if pane_id == target {
                assert(leaves(SplitNode::Leaf { pane_id: new_pane }) == seq![new_pane]);
                assert(leaves(t) =~= seq![pane_id, new_pane]);
                assert(e =~= seq![pane_id, new_pane]);
            } else {
                assert(leaves(t) =~= seq![pane_id]);
                assert(e =~= seq![pane_id]);
            }
        },
        SplitNode::Split { direction: dir, ratio_bits, first, second } => {
            law_split_inserts_new_pane(*first, target, direction, new_pane);
            law_split_inserts_new_pane(*second, target, direction, new_pane);
            lemma_insert_after_each_concat(leaves(*first), leaves(*second), target, new_pane);
        },
    }
}

/// Split pane layout manager.
pub struct SplitLayout {
    /// The root of the layout tree.
    root: SplitNode,
    /// Currently focused pane.
    focused_pane: usize,
}

impl SplitLayout {
    /// The layout tree.
    pub closed spec fn tree(&self) -> SplitNode {
        self.root
    }

    /// The focused pane.
    pub closed spec fn focus(&self) -> usize {
        self.focused_pane
    }

    /// A layout with the single pane `pane_id`, focused.
    pub fn new(pane_id: usize) -> (r: Self)
        ensures
            r.tree() == (SplitNode::Leaf { pane_id }),
            r.focus() == pane_id,
    {
        SplitLayout { root: SplitNode::Leaf { pane_id }, focused_pane: pane_id }
    }

    /// Split `pane_id` in the given direction, showing `new_pane_id` beside it.
    pub fn split(&mut self, pane_id: usize, direction: SplitDirection, new_pane_id: usize)
        ensures
            final(self).tree() == split_tree(old(self).tree(), pane_id, direction, new_pane_id),
            final(self).focus() == old(self).focus(),
    {
        self.root = self.split_node(&self.root, pane_id, direction, new_pane_id);
    }

    fn split_node(
        &self,
        node: &SplitNode,
        target_pane: usize,
        direction: SplitDirection,
        new_pane: usize,
    ) -> (r: SplitNode)
        ensures
            r == split_tree(*node, target_pane, direction, new_pane),
        decreases node,
    {
        match node {
            SplitNode::Leaf { pane_id } => {
                if *pane_id == target_pane {
                    SplitNode::Split {
                        direction,
                        ratio_bits: HALF_RATIO_BITS,
                        first: Box::new(SplitNode::Leaf { pane_id: *pane_id }),
                        second: Box::new(SplitNode::Leaf { pane_id: new_pane }),
                    }
                } else {
                    SplitNode::Leaf { pane_id: *pane_id }
                }
            },
            SplitNode::Split { direction: dir, ratio_bits, first, second } => SplitNode::Split {
                direction: *dir,
                ratio_bits: *ratio_bits,
                first: Box::new(self.split_node(first, target_pane, direction, new_pane)),
                second: Box::new(self.split_node(second, target_pane, direction, new_pane)),
            },
        }
    }

    /// The layout tree, for computing pane rectangles.
    pub fn root(&self) -> (r: &SplitNode)
        ensures
            *r == self.tree(),
    {
        &self.root
    }

    /// The focused pane.
    pub fn focused_pane(&self) -> (r: usize)
        ensures
            r == self.focus(),
    {
        self.focused_pane
    }

    /// Focus `pane_id`.
    pub fn set_focused_pane(&mut self, pane_id: usize)
        ensures
            final(self).focus() == pane_id,
            final(self).tree() == old(self).tree(),
    {
        self.focused_pane = pane_id;
    }
}

/// Undo a split of `target` that showed `new_pane`: every split whose first
/// child is the leaf `target` and whose second is the leaf `new_pane`
/// becomes the leaf `target` again; every other node keeps its direction,
/// ratio and order of children.
pub open spec fn unsplit(node: SplitNode, target: usize, new_pane: usize) -> SplitNode
    decreases node,
{
    match node {
        SplitNode::Leaf { pane_id } => SplitNode::Leaf { pane_id },
        SplitNode::Split { direction, ratio_bits, first, second } => if *first == (SplitNode::Leaf {
            pane_id: target,
        }) && *second == (SplitNode::Leaf { pane_id: new_pane }) {
            SplitNode::Leaf { pane_id: target }
        } else {
            SplitNode::Split {
                direction,
                ratio_bits,
                first: Box::new(unsplit(*first, target, new_pane)),
                second: Box::new(unsplit(*second, target, new_pane)),
            }
        },
    }
}

/// What splitting makes of a node that is not a leaf of `target` stays a
/// split, or a leaf other than `target`.
proof fn lemma_split_tree_leaf(node: SplitNode, target: usize, direction: SplitDirection, new_pane: usize)
    ensures
        split_tree(node, target, direction, new_pane) matches SplitNode::Leaf { pane_id } ==> (node
            == SplitNode::Leaf { pane_id } && pane_id != target),
{
}

/// Splitting changes nothing but the split panes: undoing the new splits
/// gives back the tree as it was, so every split that was there keeps its
/// direction, ratio and children. (The new pane must not be on screen yet.)
pub proof fn law_split_keeps_existing_splits(
    node: SplitNode,
    target: usize,
    direction: SplitDirection,
    new_pane: usize,
)
    requires
        !leaves(node).contains(new_pane),
    ensures
        unsplit(split_tree(node, target, direction, new_pane), target, new_pane) == node,
    decreases node,
{
    match node {
        SplitNode::Leaf { pane_id } => {
            assert(leaves(node) == seq![pane_id]);
            assert(leaves(node)[0] == pane_id);
        },
        SplitNode::Split { direction: dir, ratio_bits, first, second } => {
            assert(leaves(node) == leaves(*first) + leaves(*second));
            assert forall|p: usize| leaves(*first).contains(p) implies leaves(node).contains(p) by {
                let i = choose|i: int| 0 <= i < leaves(*first).len() && leaves(*first)[i] == p;
                assert(leaves(node)[i] == p);
            }
            assert forall|p: usize| leaves(*second).contains(p) implies leaves(node).contains(p) by {
                let i = choose|i: int| 0 <= i < leaves(*second).len() && leaves(*second)[i] == p;
                assert(leaves(node)[leaves(*first).len() + i] == p);
            }
            law_split_keeps_existing_splits(*first, target, direction, new_pane);
            law_split_keeps_existing_splits(*second, target, direction, new_pane);
            let s2 = split_tree(*second, target, direction, new_pane);
            lemma_split_tree_leaf(*second, target, direction, new_pane);
            if s2 == (SplitNode::Leaf { pane_id: new_pane }) {
                assert(*second == SplitNode::Leaf { pane_id: new_pane });
                assert(leaves(*second) == seq![new_pane]);
                assert(leaves(*second)[0] == new_pane);
            }
        },
    }
}

} // verus!
