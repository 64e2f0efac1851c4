//! How a tab's panes are arranged: a tree whose leaves are pane positions
//! and whose inner nodes split their space in a direction.
use vstd::prelude::*;

use crate::keybinds::SplitDirection;

verus! {

/// A tab's arrangement of panes.
#[derive(Debug)]
pub enum LayoutNode {
    /// The pane at this position in the tab.
    Leaf(usize),
    /// Space shared by two parts, side by side (`Vertical`) or one above the
    /// other (`Horizontal`).
    Split { direction: SplitDirection, first: Box<LayoutNode>, second: Box<LayoutNode> },
}

/// `n` with each leaf of pane `target` split in direction `d`: the old pane
/// first, pane `new` second.
pub open spec fn split_at(n: LayoutNode, target: usize, new: usize, d: SplitDirection) -> LayoutNode
    decreases n,
{
    match n {
        LayoutNode::Leaf(i) => if i == target {
            LayoutNode::Split {
                direction: d,
                first: Box::new(LayoutNode::Leaf(i)),
                second: Box::new(LayoutNode::Leaf(new)),
            }
        } else {
            n
        },
        LayoutNode::Split { direction, first, second } => LayoutNode::Split {
            direction,
            first: Box::new(split_at(*first, target, new, d)),
            second: Box::new(split_at(*second, target, new, d)),
        },
    }
}

/// `n` without the leaves of pane `target`: a split that loses one side
/// becomes its other side; `None` when nothing is left.
pub open spec fn removed(n: LayoutNode, target: usize) -> Option<LayoutNode>
    decreases n,
{
    match n {
        LayoutNode::Leaf(i) => if i == target {
            None
        } else {
            Some(n)
        },
        LayoutNode::Split { direction, first, second } => match (removed(*first, target), removed(*second, target)) {
            (None, None) => None,
            (None, Some(y)) => Some(y),
            (Some(x), None) => Some(x),
            (Some(x), Some(y)) => Some(LayoutNode::Split { direction, first: Box::new(x), second: Box::new(y) }),
        },
    }
}

/// `n` with every pane position above `target` moved down by one, as after
/// the pane at `target` left the tab.
pub open spec fn shifted(n: LayoutNode, target: usize) -> LayoutNode
    decreases n,
{
    match n {
        LayoutNode::Leaf(i) => LayoutNode::Leaf(if i > target { (i - 1) as usize } else { i }),
        LayoutNode::Split { direction, first, second } => LayoutNode::Split {
            direction,
            first: Box::new(shifted(*first, target)),
            second: Box::new(shifted(*second, target)),
        },
    }
}

impl LayoutNode {
    /// Splits the leaves of pane `target` in direction `d`, pane `new`
    /// taking the second part.
    pub fn split_pane(self, target: usize, new: usize, d: SplitDirection) -> (r: LayoutNode)
        ensures
            r == split_at(self, target, new, d),
        decreases self,
    {
        match self {
            LayoutNode::Leaf(i) => {
                if i == target {
                    LayoutNode::Split {
                        direction: d,
                        first: Box::new(LayoutNode::Leaf(i)),
                        second: Box::new(LayoutNode::Leaf(new)),
                    }
                } else {
                    LayoutNode::Leaf(i)
                }
            },
            LayoutNode::Split { direction, first, second } => LayoutNode::Split {
                direction,
                first: Box::new((*first).split_pane(target, new, d)),
                second: Box::new((*second).split_pane(target, new, d)),
            },
        }
    }

    /// Whether anything is left of the arrangement without pane `target`.
    pub fn keeps_other_panes(&self, target: usize) -> (r: bool)
        ensures
            r == removed(*self, target) is Some,
        decreases self,
    {
        match self {
            LayoutNode::Leaf(i) => *i != target,
            LayoutNode::Split { first, second, .. } => first.keeps_other_panes(target) || second.keeps_other_panes(
                target,
            ),
        }
    }

    /// The arrangement without pane `target` (see `removed`).
    pub fn remove_pane(self, target: usize) -> (r: Option<LayoutNode>)
        ensures
            r == removed(self, target),
        decreases self,
    {
        match self {
            LayoutNode::Leaf(i) => {
                if i == target {
                    None
                } else {
                    Some(LayoutNode::Leaf(i))
                }
            },
            LayoutNode::Split { direction, first, second } => {
                let a = (*first).remove_pane(target);
                let b = (*second).remove_pane(target);
                match (a, b) {
                    (None, None) => None,
                    (None, Some(y)) => Some(y),
                    (Some(x), None) => Some(x),
                    (Some(x), Some(y)) => Some(LayoutNode::Split { direction, first: Box::new(x), second: Box::new(y) }),
                }
            },
        }
    }

    /// Moves every pane position above `target` down by one.
    pub fn decrement_indices_above(self, target: usize) -> (r: LayoutNode)
        ensures
            r == shifted(self, target),
        decreases self,
    {
        match self {
            LayoutNode::Leaf(i) => LayoutNode::Leaf(if i > target { i - 1 } else { i }),
            LayoutNode::Split { direction, first, second } => LayoutNode::Split {
                direction,
                first: Box::new((*first).decrement_indices_above(target)),
                second: Box::new((*second).decrement_indices_above(target)),
            },
        }
    }
}

/// A split of the space in direction `d`: `a` first, `b` second.
pub open spec fn split_node(d: SplitDirection, a: LayoutNode, b: LayoutNode) -> LayoutNode {
    LayoutNode::Split { direction: d, first: Box::new(a), second: Box::new(b) }
}

/// Closing a pane keeps the direction of every split whose two sides both
/// keep a pane, and keeps what is left of its sides in their order; a split
/// that loses one side entirely gives way to its other side; a leaf goes
/// exactly when it is the pane closed.
pub proof fn removal_keeps_directions(n: LayoutNode, t: usize)
    ensures
        ({
            match n {
                LayoutNode::Split { direction, first, second } => {
                    let x = removed(*first, t);
                    let y = removed(*second, t);
                    &&& (x is Some && y is Some) ==> (removed(n, t) == Some(split_node(direction, x->0, y->0)))
                    &&& (x is None && y is Some) ==> (removed(n, t) == y)
                    &&& (x is Some && y is None) ==> (removed(n, t) == x)
                    &&& (x is None && y is None) ==> (removed(n, t) is None)
                },
                LayoutNode::Leaf(i) => (removed(n, t) is None) == (i == t),
            }
        }),
{
}

/// Splitting a pane keeps the direction of every split already there, and
/// turns each leaf of the pane split into a split in the direction asked
/// for, the old pane first and the new one second; other leaves stay.
pub proof fn split_keeps_directions(n: LayoutNode, t: usize, new: usize, d: SplitDirection)
    ensures
        ({
            match n {
                LayoutNode::Split { direction, first, second } => split_at(n, t, new, d) == split_node(
                    direction,
                    split_at(*first, t, new, d),
                    split_at(*second, t, new, d),
                ),
                LayoutNode::Leaf(i) => if i == t {
                    split_at(n, t, new, d) == split_node(d, LayoutNode::Leaf(t), LayoutNode::Leaf(new))
                } else {
                    split_at(n, t, new, d) == n
                },
            }
        }),
{
}

/// After the pane at position `t` leaves the tab, the positions above it
/// move down by one and the others stay, while every split keeps its
/// direction and its sides' order.
pub proof fn shift_keeps_shape(n: LayoutNode, t: usize)
    ensures
        ({
            match n {
                LayoutNode::Split { direction, first, second } => shifted(n, t) == split_node(
                    direction,
                    shifted(*first, t),
                    shifted(*second, t),
                ),
                LayoutNode::Leaf(i) => if i > t {
                    shifted(n, t) == LayoutNode::Leaf((i - 1) as usize)
                } else {
                    shifted(n, t) == n
                },
            }
        }),
{
}

/// The pane positions of an arrangement, first side before second.
pub open spec fn leaves(n: LayoutNode) -> Seq<usize>
    decreases n,
{
    match n {
        LayoutNode::Leaf(i) => seq![i],
        LayoutNode::Split { first, second, .. } => leaves(*first) + leaves(*second),
    }
}

/// The positions other than `t`, in order.
pub open spec fn other_than(s: Seq<usize>, t: usize) -> Seq<usize> {
    s.filter(|i: usize| i != t)
}

/// Closing pane `t` takes out exactly its leaves: the panes left are the
/// others, in the same order, and nothing is left only when no other pane
/// was there.
pub proof fn removal_drops_only_that_pane(n: LayoutNode, t: usize)
    ensures
        ({
            match removed(n, t) {
                Some(r) => leaves(r) == other_than(leaves(n), t),
                None => other_than(leaves(n), t).len() == 0,
            }
        }),
    decreases n,
{
    reveal(Seq::filter);
    match n {
        LayoutNode::Leaf(i) => {
            reveal_with_fuel(Seq::filter, 2);
            let s1 = seq![i];
            assert(s1.drop_last() =~= Seq::<usize>::empty());
            if i != t {
                assert(other_than(s1, t) =~= s1);
            } else {
                assert(other_than(s1, t) =~= Seq::<usize>::empty());
            }
        },
        LayoutNode::Split { direction, first, second } => {
            removal_drops_only_that_pane(*first, t);
            removal_drops_only_that_pane(*second, t);
            Seq::filter_distributes_over_add(leaves(*first), leaves(*second), |i: usize| i != t);
            assert(other_than(leaves(n), t) == other_than(leaves(*first), t) + other_than(leaves(*second), t));
            match (removed(*first, t), removed(*second, t)) {
                (None, None) => {},
                (None, Some(y)) => {
                    assert(other_than(leaves(n), t) =~= other_than(leaves(*second), t));
                },
                (Some(x), None) => {
                    assert(other_than(leaves(n), t) =~= other_than(leaves(*first), t));
                },
                (Some(x), Some(y)) => {},
            }
        },
    }
}

} // verus!
