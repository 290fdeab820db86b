//! The split tree of a window: leaves name panes by their index in the
//! window's pane list, inner nodes split their area in two.
use vstd::prelude::*;
use crate::session::SessionPaneLayout;

verus! {

/// The direction in which a split lays out its two children.
#[derive(Debug, Clone, Copy, PartialEq, Eq)]
pub enum SplitDirection {
    /// Side by side (a vertical separator).
    Vertical,
    /// One above the other (a horizontal separator).
    Horizontal,
}

/// The share of the available space that a split gives to its first child,
/// held exactly as the fraction `num / den`.
#[derive(Debug, Clone, Copy, PartialEq, Eq)]
pub struct SplitRatio {
    pub num: u16,
    pub den: u16,
}

impl SplitRatio {
    /// The even split, one half.
    pub fn half() -> (r: SplitRatio)
        ensures
            r.num == 1,
            r.den == 2,
    {
        SplitRatio { num: 1, den: 2 }
    }
}

/// Which child to descend into when walking from the root to a split.
#[derive(Debug, Clone, Copy, PartialEq, Eq)]
pub enum WhichChild {
    First,
    Second,
}

/// A node of the split tree.
#[derive(Debug, PartialEq, Eq)]
pub enum PaneNode {
    /// A pane, by its index in the window's pane list.
    Leaf(usize),
    /// Two subtrees laid out in `direction`; `ratio` is the first one's share.
    Split {
        direction: SplitDirection,
        ratio: SplitRatio,
        first: Box<PaneNode>,
        second: Box<PaneNode>,
    },
}

/// The even split as a value for specifications.
pub open spec fn half_ratio() -> SplitRatio {
    SplitRatio { num: 1, den: 2 }
}

/// `s` lists each of `0..n` exactly once.
pub open spec fn is_index_permutation(s: Seq<usize>, n: nat) -> bool {
    &&& s.len() == n
    &&& s.no_duplicates()
    &&& forall|i: int| 0 <= i < s.len() ==> #[trigger] s[i] < n
}

/// Every element of `s` is below `n`.
pub open spec fn all_below(s: Seq<usize>, n: nat) -> bool {
    forall|i: int| 0 <= i < s.len() ==> #[trigger] s[i] < n
}

/// The index that a leaf holds once the leaf `removed` is gone.
pub open spec fn shifted_index(index: usize, removed: usize) -> usize {
    if index > removed {
        (index - 1) as usize
    } else {
        index
    }
}

/// `0, 1, ..., n - 1`.
pub open spec fn index_range(n: nat) -> Seq<usize> {
    Seq::new(n, |i: int| i as usize)
}

impl PaneNode {
    /// The pane indices of the leaves, left to right.
    pub open spec fn leaves(self) -> Seq<usize>
        decreases self,
    {
        match self {
            PaneNode::Leaf(index) => seq![index],
            PaneNode::Split { first, second, .. } => first.leaves() + second.leaves(),
        }
    }

    /// The position, among the leaves, of the first leaf that holds `index`.
    pub open spec fn leaf_pos(self, index: usize) -> int
        decreases self,
    {
        match self {
            PaneNode::Leaf(_) => 0,
            PaneNode::Split { first, second, .. } => {
                if first.leaves().contains(index) {
                    first.leaf_pos(index)
                } else {
                    first.leaves().len() + second.leaf_pos(index)
                }
            },
        }
    }

    /// The tree after splitting the first leaf that holds `old_index`, and
    /// whether such a leaf was found.
    pub open spec fn spec_split_leaf(
        self,
        old_index: usize,
        new_index: usize,
        direction: SplitDirection,
    ) -> (PaneNode, bool)
        decreases self,
    {
        match self {
            PaneNode::Leaf(index) => {
                if index == old_index {
                    (
                        PaneNode::Split {
                            direction,
                            ratio: half_ratio(),
                            first: Box::new(PaneNode::Leaf(old_index)),
                            second: Box::new(PaneNode::Leaf(new_index)),
                        },
                        true,
                    )
                } else {
                    (self, false)
                }
            },
            PaneNode::Split { direction: d, ratio, first, second } => {
                let (f, done) = first.spec_split_leaf(old_index, new_index, direction);
                if done {
                    (PaneNode::Split { direction: d, ratio, first: Box::new(f), second }, true)
                } else {
                    let (s, done2) = second.spec_split_leaf(old_index, new_index, direction);
                    (
                        PaneNode::Split {
                            direction: d,
                            ratio,
                            first: Box::new(f),
                            second: Box::new(s),
                        },
                        done2,
                    )
                }
            },
        }
    }

    /// The tree without the leaf `removed_index`: a split that loses one of
    /// its two leaves collapses into the other child; removing the root leaf
    /// leaves `Leaf(0)`.
    pub open spec fn spec_remove_leaf(self, removed_index: usize) -> PaneNode
        decreases self,
    {
        match self {
            PaneNode::Leaf(_) => PaneNode::Leaf(0),
            PaneNode::Split { direction, ratio, first, second } => {
                let first_has = first.leaves().contains(removed_index);
                let second_has = second.leaves().contains(removed_index);
                if first_has && !second_has && *first is Leaf {
                    *second
                } else if !first_has && second_has && *second is Leaf {
                    *first
                } else if first_has && !second_has {
                    PaneNode::Split {
                        direction,
                        ratio,
                        first: Box::new(first.spec_remove_leaf(removed_index)),
                        second,
                    }
                } else if !first_has && second_has {
                    PaneNode::Split {
                        direction,
                        ratio,
                        first,
                        second: Box::new(second.spec_remove_leaf(removed_index)),
                    }
                } else {
                    self
                }
            },
        }
    }

    /// Every leaf above `removed_index` moves down by one.
    pub open spec fn spec_shift(self, removed_index: usize) -> PaneNode
        decreases self,
    {
        match self {
            PaneNode::Leaf(index) => PaneNode::Leaf(shifted_index(index, removed_index)),
            PaneNode::Split { direction, ratio, first, second } => PaneNode::Split {
                direction,
                ratio,
                first: Box::new(first.spec_shift(removed_index)),
                second: Box::new(second.spec_shift(removed_index)),
            },
        }
    }

    /// The flat layout of `pane_count` panes: each new pane splits the whole
    /// previous layout, in `direction`, at one half.
    pub open spec fn spec_flat(pane_count: nat, direction: SplitDirection) -> PaneNode
        decreases pane_count,
    {
        if pane_count <= 1 {
            PaneNode::Leaf(0)
        } else {
            PaneNode::Split {
                direction,
                ratio: half_ratio(),
                first: Box::new(PaneNode::spec_flat((pane_count - 1) as nat, direction)),
                second: Box::new(PaneNode::Leaf((pane_count - 1) as usize)),
            }
        }
    }

    /// The layout kept when the tree is used with `pane_count` panes.
    pub open spec fn spec_sanitize(self, pane_count: nat) -> PaneNode {
        if pane_count == 0 {
            PaneNode::Leaf(0)
        } else if all_below(self.leaves(), pane_count) {
            self
        } else {
            PaneNode::spec_flat(pane_count, SplitDirection::Vertical)
        }
    }

    /// Whether some leaf holds `needle`.
    pub fn contains_leaf(&self, needle: usize) -> (r: bool)
        ensures
            r == self.leaves().contains(needle),
        decreases self,
    {
        match self {
            PaneNode::Leaf(index) => {
                assert(self.leaves()[0] == *index);
                *index == needle
            },
            PaneNode::Split { first, second, .. } => {
                let a = first.contains_leaf(needle);
                let b = second.contains_leaf(needle);
                proof {
                    lemma_contains_concat(first.leaves(), second.leaves(), needle);
                }
                a || b
            },
        }
    }

    /// Whether the tree is a single leaf.
    pub fn is_single_leaf(&self) -> (r: bool)
        ensures
            r == (self is Leaf),
    {
        match self {
            PaneNode::Leaf(_) => true,
            PaneNode::Split { .. } => false,
        }
    }

    /// The direction of the root split, if the root is a split.
    pub fn first_split_direction(&self) -> (r: Option<SplitDirection>)
        ensures
            match self {
                PaneNode::Leaf(_) => r is None,
                PaneNode::Split { direction, .. } => r == Some(*direction),
            },
    {
        match self {
            PaneNode::Leaf(_) => None,
            PaneNode::Split { direction, .. } => Some(*direction),
        }
    }

    /// Whether every leaf names one of `pane_count` panes.
    pub fn all_leaves_valid(&self, pane_count: usize) -> (r: bool)
        ensures
            r == all_below(self.leaves(), pane_count as nat),
        decreases self,
    {
        match self {
            PaneNode::Leaf(index) => {
                assert(self.leaves()[0] == *index);
                *index < pane_count
            },
            PaneNode::Split { first, second, .. } => {
                let a = first.all_leaves_valid(pane_count);
                let b = second.all_leaves_valid(pane_count);
                proof {
                    lemma_all_below_concat(first.leaves(), second.leaves(), pane_count as nat);
                }
                a && b
            },
        }
    }

    fn split_leaf_owned(
        node: PaneNode,
        old_index: usize,
        new_index: usize,
        direction: SplitDirection,
    ) -> (r: (PaneNode, bool))
        ensures
            r == node.spec_split_leaf(old_index, new_index, direction),
        decreases node,
    {
        match node {
            PaneNode::Leaf(index) => {
                if index == old_index {
                    (
                        PaneNode::Split {
                            direction,
                            ratio: SplitRatio::half(),
                            first: Box::new(PaneNode::Leaf(old_index)),
                            second: Box::new(PaneNode::Leaf(new_index)),
                        },
                        true,
                    )
                } else {
                    (PaneNode::Leaf(index), false)
                }
            },
            PaneNode::Split { direction: d, ratio, first, second } => {
                let (f, done) = Self::split_leaf_owned(*first, old_index, new_index, direction);
                if done {
                    (PaneNode::Split { direction: d, ratio, first: Box::new(f), second }, true)
                } else {
                    let (s, done2) = Self::split_leaf_owned(
                        *second,
                        old_index,
                        new_index,
                        direction,
                    );
                    (
                        PaneNode::Split {
                            direction: d,
                            ratio,
                            first: Box::new(f),
                            second: Box::new(s),
                        },
                        done2,
                    )
                }
            },
        }
    }

    /// Replaces the first leaf that holds `old_index` by a split at one half
    /// in `direction`, whose first child is that leaf and whose second child
    /// is `Leaf(new_index)`. Returns whether such a leaf was found; the tree
    /// is unchanged when it was not.
    pub fn split_leaf(&mut self, old_index: usize, new_index: usize, direction: SplitDirection) -> (r:
        bool)
        ensures
            (*final(self), r) == old(self).spec_split_leaf(old_index, new_index, direction),
            r == old(self).leaves().contains(old_index),
            r ==> final(self).leaves() == old(self).leaves().insert(
                old(self).leaf_pos(old_index) + 1,
                new_index,
            ),
            !r ==> *final(self) == *old(self),
    {
        let mut node = PaneNode::Leaf(0);
        std::mem::swap(&mut node, self);
        proof {
            lemma_split_leaf_leaves(node, old_index, new_index, direction);
        }
        let (n, r) = Self::split_leaf_owned(node, old_index, new_index, direction);
        *self = n;
        r
    }

    fn remove_leaf_owned(node: PaneNode, removed_index: usize) -> (r: PaneNode)
        ensures
            r == node.spec_remove_leaf(removed_index),
        decreases node,
    {
        match node {
            PaneNode::Leaf(_) => PaneNode::Leaf(0),
            PaneNode::Split { direction, ratio, first, second } => {
                let first_has = first.contains_leaf(removed_index);
                let second_has = second.contains_leaf(removed_index);
                if first_has && !second_has && first.is_single_leaf() {
                    *second
                } else if !first_has && second_has && second.is_single_leaf() {
                    *first
                } else if first_has && !second_has {
                    PaneNode::Split {
                        direction,
                        ratio,
                        first: Box::new(Self::remove_leaf_owned(*first, removed_index)),
                        second,
                    }
                } else if !first_has && second_has {
                    PaneNode::Split {
                        direction,
                        ratio,
                        first,
                        second: Box::new(Self::remove_leaf_owned(*second, removed_index)),
                    }
                } else {
                    PaneNode::Split { direction, ratio, first, second }
                }
            },
        }
    }

    /// The tree without the leaf `removed_index` (see `spec_remove_leaf`).
    /// Where the tree is a split whose leaves are distinct and include
    /// `removed_index`, exactly that leaf goes and the order of the others
    /// is kept.
    pub fn remove_leaf(self, removed_index: usize) -> (r: PaneNode)
        ensures
            r == self.spec_remove_leaf(removed_index),
            self is Split && self.leaves().no_duplicates() && self.leaves().contains(removed_index)
                ==> r.leaves() == self.leaves().remove(self.leaf_pos(removed_index)),
            !self.leaves().contains(removed_index) && self is Split ==> r == self,
    {
        proof {
            if self is Split {
                lemma_contains_concat(self->first.leaves(), self->second.leaves(), removed_index);
            }
            if self is Split && self.leaves().no_duplicates() && self.leaves().contains(
                removed_index,
            ) {
                lemma_remove_leaf_leaves(self, removed_index);
            }
        }
        Self::remove_leaf_owned(self, removed_index)
    }

    fn shift_owned(node: PaneNode, removed_index: usize) -> (r: PaneNode)
        ensures
            r == node.spec_shift(removed_index),
        decreases node,
    {
        match node {
            PaneNode::Leaf(index) => {
                if index > removed_index {
                    PaneNode::Leaf(index - 1)
                } else {
                    PaneNode::Leaf(index)
                }
            },
            PaneNode::Split { direction, ratio, first, second } => PaneNode::Split {
                direction,
                ratio,
                first: Box::new(Self::shift_owned(*first, removed_index)),
                second: Box::new(Self::shift_owned(*second, removed_index)),
            },
        }
    }

    /// Every leaf that holds an index above `removed_index` moves down by one.
    pub fn shift_after_removed(&mut self, removed_index: usize)
        ensures
            *final(self) == old(self).spec_shift(removed_index),
            final(self).leaves() == old(self).leaves().map_values(
                |i: usize| shifted_index(i, removed_index),
            ),
    {
        let mut node = PaneNode::Leaf(0);
        std::mem::swap(&mut node, self);
        proof {
            lemma_shift_leaves(node, removed_index);
        }
        *self = Self::shift_owned(node, removed_index);
    }

    /// The flat layout of `pane_count` panes (see `spec_flat`); its leaves
    /// are `0, 1, ..., pane_count - 1` (just `0` when `pane_count` is zero).
    pub fn from_flat_panes(pane_count: usize, direction: SplitDirection) -> (r: PaneNode)
        ensures
            r == PaneNode::spec_flat(pane_count as nat, direction),
            pane_count >= 1 ==> r.leaves() == index_range(pane_count as nat),
            pane_count == 0 ==> r.leaves() == seq![0usize],
    {
        let mut layout = PaneNode::Leaf(0);
        let mut index: usize = 1;
        while index < pane_count
            invariant
                1 <= index,
                index <= (if pane_count == 0 { 1 } else { pane_count }),
                layout == PaneNode::spec_flat(index as nat, direction),
            decreases pane_count - index,
        {
            layout = PaneNode::Split {
                direction,
                ratio: SplitRatio::half(),
                first: Box::new(layout),
                second: Box::new(PaneNode::Leaf(index)),
            };
            index = index + 1;
        }
        proof {
            if pane_count >= 1 {
                lemma_flat_leaves(pane_count as nat, direction);
            } else {
                assert(PaneNode::spec_flat(0, direction) == PaneNode::spec_flat(1, direction));
                assert(layout.leaves() == seq![0usize]);
            }
        }
        layout
    }

    /// The layout to use with `pane_count` panes: the tree itself when all
    /// its leaves name one of the panes, else the flat vertical layout;
    /// `Leaf(0)` when there are no panes.
    pub fn sanitize(self, pane_count: usize) -> (r: PaneNode)
        ensures
            r == self.spec_sanitize(pane_count as nat),
            pane_count > 0 ==> all_below(r.leaves(), pane_count as nat),
    {
        if pane_count == 0 {
            return PaneNode::Leaf(0);
        }
        if self.all_leaves_valid(pane_count) {
            self
        } else {
            let r = Self::from_flat_panes(pane_count, SplitDirection::Vertical);
            r
        }
    }
}

/// Whether `node` is a split with ratio `ratio`.
pub open spec fn split_has_ratio(node: Option<PaneNode>, ratio: SplitRatio) -> bool {
    match node {
        Some(PaneNode::Split { ratio: q, .. }) => q == ratio,
        _ => false,
    }
}

/// The size of a pane: at least one column, and one row less than its area
/// (the title row), at least one.
pub open spec fn leaf_size(cols: u16, rows: u16) -> (u16, u16) {
    (if cols < 1 { 1 } else { cols }, if rows.saturating_sub(1) < 1 { 1 } else { rows.saturating_sub(1) })
}

impl PaneNode {
    /// The terminal size of each pane when the tree is given `cols` by
    /// `rows` cells, leaf by leaf: the pane index, its columns and its rows.
    pub open spec fn spec_pane_sizes(self, cols: u16, rows: u16) -> Seq<(usize, u16, u16)>
        decreases self,
    {
        match self {
            PaneNode::Leaf(index) => seq![(index, leaf_size(cols, rows).0, leaf_size(cols, rows).1)],
            PaneNode::Split { direction, ratio, first, second } => {
                match direction {
                    SplitDirection::Vertical => {
                        let sep: u16 = if cols > 2 { 1 } else { 0 };
                        let available = (cols - sep) as u16;
                        let first_cols = crate::layout::spec_split_first_size(available, ratio);
                        let rest = available.saturating_sub(first_cols);
                        let second_cols: u16 = if rest < 1 { 1 } else { rest };
                        first.spec_pane_sizes(first_cols, rows) + second.spec_pane_sizes(
                            second_cols,
                            rows,
                        )
                    },
                    SplitDirection::Horizontal => {
                        let sep: u16 = if rows > 2 { 1 } else { 0 };
                        let available = (rows - sep) as u16;
                        let first_rows = crate::layout::spec_split_first_size(available, ratio);
                        let rest = available.saturating_sub(first_rows);
                        let second_rows: u16 = if rest < 1 { 1 } else { rest };
                        first.spec_pane_sizes(cols, first_rows) + second.spec_pane_sizes(
                            cols,
                            second_rows,
                        )
                    },
                }
            },
        }
    }

    fn collect_pane_sizes(&self, cols: u16, rows: u16, sizes: &mut Vec<(usize, u16, u16)>)
        ensures
            final(sizes)@ == old(sizes)@ + self.spec_pane_sizes(cols, rows),
        decreases self,
    {
        match self {
            PaneNode::Leaf(index) => {
                let c = if cols < 1 { 1 } else { cols };
                let r0 = rows.saturating_sub(1);
                let r = if r0 < 1 { 1 } else { r0 };
                sizes.push((*index, c, r));
                assert(sizes@ =~= old(sizes)@ + self.spec_pane_sizes(cols, rows));
            },
            PaneNode::Split { direction, ratio, first, second } => {
                match direction {
                    SplitDirection::Vertical => {
                        let sep: u16 = if cols > 2 { 1 } else { 0 };
                        let available = cols - sep;
                        let first_cols = crate::layout::split_first_size(available, *ratio);
                        let rest = available.saturating_sub(first_cols);
                        let second_cols: u16 = if rest < 1 { 1 } else { rest };
                        first.collect_pane_sizes(first_cols, rows, sizes);
                        second.collect_pane_sizes(second_cols, rows, sizes);
                    },
                    SplitDirection::Horizontal => {
                        let sep: u16 = if rows > 2 { 1 } else { 0 };
                        let available = rows - sep;
                        let first_rows = crate::layout::split_first_size(available, *ratio);
                        let rest = available.saturating_sub(first_rows);
                        let second_rows: u16 = if rest < 1 { 1 } else { rest };
                        first.collect_pane_sizes(cols, first_rows, sizes);
                        second.collect_pane_sizes(cols, second_rows, sizes);
                    },
                }
                assert(final(sizes)@ =~= old(sizes)@ + self.spec_pane_sizes(cols, rows));
            },
        }
    }

    /// The terminal size of each pane when the tree is given `cols` by
    /// `rows` cells (see `spec_pane_sizes`): one entry per leaf, in leaf
    /// order, never smaller than one cell each way.
    pub fn pane_sizes(&self, cols: u16, rows: u16) -> (r: Vec<(usize, u16, u16)>)
        ensures
            r@ == self.spec_pane_sizes(cols, rows),
            r@.len() == self.leaves().len(),
            forall|i: int|
                0 <= i < r@.len() ==> (#[trigger] r@[i]).0 == self.leaves()[i] && r@[i].1 >= 1
                    && r@[i].2 >= 1,
    {
        let mut sizes = Vec::new();
        self.collect_pane_sizes(cols, rows, &mut sizes);
        assert(sizes@ =~= self.spec_pane_sizes(cols, rows));
        proof {
            lemma_pane_sizes_shape(*self, cols, rows);
        }
        sizes
    }

    /// The split that `path` leads to from the root, if the path ends on one.
    pub open spec fn spec_split_at(self, path: Seq<WhichChild>) -> Option<PaneNode>
        decreases path.len(),
    {
        match self {
            PaneNode::Leaf(_) => None,
            PaneNode::Split { first, second, .. } => {
                if path.len() == 0 {
                    Some(self)
                } else {
                    match path[0] {
                        WhichChild::First => first.spec_split_at(path.drop_first()),
                        WhichChild::Second => second.spec_split_at(path.drop_first()),
                    }
                }
            },
        }
    }

    /// The tree with the ratio of the split at `path` set to `ratio`.
    pub open spec fn spec_set_ratio(self, path: Seq<WhichChild>, new_ratio: SplitRatio) -> PaneNode
        decreases path.len(),
    {
        match self {
            PaneNode::Leaf(_) => self,
            PaneNode::Split { direction, ratio, first, second } => {
                if path.len() == 0 {
                    PaneNode::Split { direction, ratio: new_ratio, first, second }
                } else {
                    match path[0] {
                        WhichChild::First => PaneNode::Split {
                            direction,
                            ratio,
                            first: Box::new(first.spec_set_ratio(path.drop_first(), new_ratio)),
                            second,
                        },
                        WhichChild::Second => PaneNode::Split {
                            direction,
                            ratio,
                            first,
                            second: Box::new(second.spec_set_ratio(path.drop_first(), new_ratio)),
                        },
                    }
                }
            },
        }
    }

    fn set_ratio_owned(node: PaneNode, path: &Vec<WhichChild>, start: usize, ratio: SplitRatio) -> (r: (
        PaneNode,
        bool,
    ))
        requires
            start <= path@.len(),
        ensures
            r.0 == node.spec_set_ratio(path@.skip(start as int), ratio),
            r.1 == node.spec_split_at(path@.skip(start as int)) is Some,
        decreases node,
    {
        let ghost rest = path@.skip(start as int);
        match node {
            PaneNode::Leaf(i) => (PaneNode::Leaf(i), false),
            PaneNode::Split { direction, ratio: old_ratio, first, second } => {
                if start == path.len() {
                    assert(rest.len() == 0);
                    (PaneNode::Split { direction, ratio, first, second }, true)
                } else {
                    assert(rest[0] == path@[start as int]);
                    assert(rest.drop_first() =~= path@.skip(start + 1));
                    match path[start] {
                        WhichChild::First => {
                            let (f, ok) = Self::set_ratio_owned(*first, path, start + 1, ratio);
                            (
                                PaneNode::Split {
                                    direction,
                                    ratio: old_ratio,
                                    first: Box::new(f),
                                    second,
                                },
                                ok,
                            )
                        },
                        WhichChild::Second => {
                            let (s, ok) = Self::set_ratio_owned(*second, path, start + 1, ratio);
                            (
                                PaneNode::Split {
                                    direction,
                                    ratio: old_ratio,
                                    first,
                                    second: Box::new(s),
                                },
                                ok,
                            )
                        },
                    }
                }
            },
        }
    }

    /// Sets the ratio of the split that `path` leads to from the root, and
    /// returns whether the path ends on a split; the tree is unchanged when
    /// it does not. The leaves never change.
    pub fn set_ratio_at_path(&mut self, path: &Vec<WhichChild>, ratio: SplitRatio) -> (r: bool)
        ensures
            *final(self) == old(self).spec_set_ratio(path@, ratio),
            r == old(self).spec_split_at(path@) is Some,
            final(self).leaves() == old(self).leaves(),
            r ==> split_has_ratio(final(self).spec_split_at(path@), ratio),
            !r ==> *final(self) == *old(self),
    {
        let mut node = PaneNode::Leaf(0);
        std::mem::swap(&mut node, self);
        assert(path@.skip(0) =~= path@);
        proof {
            lemma_set_ratio_facts(node, path@, ratio);
        }
        let (n, ok) = Self::set_ratio_owned(node, path, 0, ratio);
        *self = n;
        ok
    }
}

/// The saved form of a split tree.
pub open spec fn spec_to_session(node: PaneNode) -> SessionPaneLayout
    decreases node,
{
    match node {
        PaneNode::Leaf(index) => SessionPaneLayout::Leaf(index),
        PaneNode::Split { direction, ratio, first, second } => SessionPaneLayout::Split {
            direction,
            ratio,
            first: Box::new(spec_to_session(*first)),
            second: Box::new(spec_to_session(*second)),
        },
    }
}

/// The split tree that a saved layout describes.
pub open spec fn spec_from_session(layout: SessionPaneLayout) -> PaneNode
    decreases layout,
{
    match layout {
        SessionPaneLayout::Leaf(index) => PaneNode::Leaf(index),
        SessionPaneLayout::Split { direction, ratio, first, second } => PaneNode::Split {
            direction,
            ratio,
            first: Box::new(spec_from_session(*first)),
            second: Box::new(spec_from_session(*second)),
        },
    }
}

impl PaneNode {
    /// The split tree that a saved layout describes, node for node.
    pub fn from_session_layout(layout: SessionPaneLayout) -> (r: PaneNode)
        ensures
            r == spec_from_session(layout),
        decreases layout,
    {
        match layout {
            SessionPaneLayout::Leaf(index) => PaneNode::Leaf(index),
            SessionPaneLayout::Split { direction, ratio, first, second } => PaneNode::Split {
                direction,
                ratio,
                first: Box::new(Self::from_session_layout(*first)),
                second: Box::new(Self::from_session_layout(*second)),
            },
        }
    }

    /// The saved form of the tree, node for node.
    pub fn session_layout(&self) -> (r: SessionPaneLayout)
        ensures
            r == spec_to_session(*self),
        decreases self,
    {
        match self {
            PaneNode::Leaf(index) => SessionPaneLayout::Leaf(*index),
            PaneNode::Split { direction, ratio, first, second } => SessionPaneLayout::Split {
                direction: *direction,
                ratio: *ratio,
                first: Box::new(first.session_layout()),
                second: Box::new(second.session_layout()),
            },
        }
    }
}

/// A layout that is saved and read back is the layout that was saved.
pub proof fn law_session_layout_round_trip(node: PaneNode)
    ensures
        spec_from_session(spec_to_session(node)) == node,
    decreases node,
{
    match node {
        PaneNode::Leaf(_) => {},
        PaneNode::Split { first, second, .. } => {
            law_session_layout_round_trip(*first);
            law_session_layout_round_trip(*second);
        },
    }
}

/// The pane sizes of a tree list its leaves in order, each at least one
/// cell by one.
pub proof fn lemma_pane_sizes_shape(node: PaneNode, cols: u16, rows: u16)
    ensures
        node.spec_pane_sizes(cols, rows).len() == node.leaves().len(),
        forall|i: int|
            0 <= i < node.leaves().len() ==> (#[trigger] node.spec_pane_sizes(cols, rows)[i]).0
                == node.leaves()[i] && node.spec_pane_sizes(cols, rows)[i].1 >= 1
                && node.spec_pane_sizes(cols, rows)[i].2 >= 1,
    decreases node,
{
    match node {
        PaneNode::Leaf(_) => {},
        PaneNode::Split { direction, ratio, first, second } => {
            match direction {
                SplitDirection::Vertical => {
                    let sep: u16 = if cols > 2 { 1 } else { 0 };
                    let available = (cols - sep) as u16;
                    let first_cols = crate::layout::spec_split_first_size(available, ratio);
                    let rest = available.saturating_sub(first_cols);
                    let second_cols: u16 = if rest < 1 { 1 } else { rest };
                    lemma_pane_sizes_shape(*first, first_cols, rows);
                    lemma_pane_sizes_shape(*second, second_cols, rows);
                    let a = first.spec_pane_sizes(first_cols, rows);
                    let b = second.spec_pane_sizes(second_cols, rows);
                    assert forall|i: int| 0 <= i < node.leaves().len() implies (
                    #[trigger] node.spec_pane_sizes(cols, rows)[i]).0 == node.leaves()[i]
                        && node.spec_pane_sizes(cols, rows)[i].1 >= 1
                        && node.spec_pane_sizes(cols, rows)[i].2 >= 1 by {
                        if i < a.len() {
                            assert((a + b)[i] == a[i]);
                        } else {
                            assert((a + b)[i] == b[i - a.len()]);
                        }
                    }
                },
                SplitDirection::Horizontal => {
                    let sep: u16 = if rows > 2 { 1 } else { 0 };
                    let available = (rows - sep) as u16;
                    let first_rows = crate::layout::spec_split_first_size(available, ratio);
                    let rest = available.saturating_sub(first_rows);
                    let second_rows: u16 = if rest < 1 { 1 } else { rest };
                    lemma_pane_sizes_shape(*first, cols, first_rows);
                    lemma_pane_sizes_shape(*second, cols, second_rows);
                    let a = first.spec_pane_sizes(cols, first_rows);
                    let b = second.spec_pane_sizes(cols, second_rows);
                    assert forall|i: int| 0 <= i < node.leaves().len() implies (
                    #[trigger] node.spec_pane_sizes(cols, rows)[i]).0 == node.leaves()[i]
                        && node.spec_pane_sizes(cols, rows)[i].1 >= 1
                        && node.spec_pane_sizes(cols, rows)[i].2 >= 1 by {
                        if i < a.len() {
                            assert((a + b)[i] == a[i]);
                        } else {
                            assert((a + b)[i] == b[i - a.len()]);
                        }
                    }
                },
            }
        },
    }
}

proof fn lemma_set_ratio_facts(node: PaneNode, path: Seq<WhichChild>, ratio: SplitRatio)
    ensures
        node.spec_set_ratio(path, ratio).leaves() == node.leaves(),
        node.spec_split_at(path) is Some ==> split_has_ratio(
            node.spec_set_ratio(path, ratio).spec_split_at(path),
            ratio,
        ),
        node.spec_split_at(path) is None ==> node.spec_set_ratio(path, ratio) == node,
    decreases path.len(),
{
    match node {
        PaneNode::Leaf(_) => {},
        PaneNode::Split { first, second, .. } => {
            if path.len() > 0 {
                lemma_set_ratio_facts(*first, path.drop_first(), ratio);
                lemma_set_ratio_facts(*second, path.drop_first(), ratio);
            }
        },
    }
}

/// An index occurs in a concatenation exactly when it occurs in one part.
pub proof fn lemma_contains_concat(a: Seq<usize>, b: Seq<usize>, x: usize)
    ensures
        (a + b).contains(x) == (a.contains(x) || b.contains(x)),
{
    if a.contains(x) {
        let i = choose|i: int| 0 <= i < a.len() && a[i] == x;
        assert((a + b)[i] == x);
    }
    if b.contains(x) {
        let i = choose|i: int| 0 <= i < b.len() && b[i] == x;
        assert((a + b)[a.len() + i] == x);
    }
    if (a + b).contains(x) {
        let i = choose|i: int| 0 <= i < (a + b).len() && (a + b)[i] == x;
        if i < a.len() {
            assert(a[i] == x);
        } else {
            assert(b[i - a.len()] == x);
        }
    }
}

/// A concatenation is below `n` exactly when both parts are.
pub proof fn lemma_all_below_concat(a: Seq<usize>, b: Seq<usize>, n: nat)
    ensures
        all_below(a + b, n) == (all_below(a, n) && all_below(b, n)),
{
    if all_below(a + b, n) {
        assert forall|i: int| 0 <= i < a.len() implies #[trigger] a[i] < n by {
            assert((a + b)[i] == a[i]);
        }
        assert forall|i: int| 0 <= i < b.len() implies #[trigger] b[i] < n by {
            assert((a + b)[a.len() + i] == b[i]);
        }
    }
}

/// `leaf_pos` finds a leaf that the tree holds.
pub proof fn lemma_leaf_pos(node: PaneNode, index: usize)
    requires
        node.leaves().contains(index),
    ensures
        0 <= node.leaf_pos(index) < node.leaves().len(),
        node.leaves()[node.leaf_pos(index)] == index,
    decreases node,
{
    match node {
        PaneNode::Leaf(_) => {},
        PaneNode::Split { first, second, .. } => {
            lemma_contains_concat(first.leaves(), second.leaves(), index);
            if first.leaves().contains(index) {
                lemma_leaf_pos(*first, index);
            } else {
                lemma_leaf_pos(*second, index);
            }
        },
    }
}

proof fn lemma_split_leaf_leaves(
    node: PaneNode,
    old_index: usize,
    new_index: usize,
    direction: SplitDirection,
)
    ensures
        node.spec_split_leaf(old_index, new_index, direction).1 == node.leaves().contains(
            old_index,
        ),
        node.spec_split_leaf(old_index, new_index, direction).1 ==> node.spec_split_leaf(
            old_index,
            new_index,
            direction,
        ).0.leaves() == node.leaves().insert(node.leaf_pos(old_index) + 1, new_index),
        !node.spec_split_leaf(old_index, new_index, direction).1 ==> node.spec_split_leaf(
            old_index,
            new_index,
            direction,
        ).0 == node,
    decreases node,
{
    match node {
        PaneNode::Leaf(index) => {
            if index == old_index {
                let r = node.spec_split_leaf(old_index, new_index, direction).0;
                assert(PaneNode::Leaf(old_index).leaves() == seq![old_index]);
                assert(PaneNode::Leaf(new_index).leaves() == seq![new_index]);
                assert(r.leaves() =~= seq![old_index] + seq![new_index]);
                assert(node.leaves().insert(1, new_index) =~= seq![old_index, new_index]);
            } else {
                assert(!node.leaves().contains(old_index)) by {
                    if node.leaves().contains(old_index) {
                        assert(node.leaves()[0] == index);
                    }
                }
            }
        },
        PaneNode::Split { direction: d, ratio, first, second } => {
            lemma_split_leaf_leaves(*first, old_index, new_index, direction);
            lemma_split_leaf_leaves(*second, old_index, new_index, direction);
            lemma_contains_concat(first.leaves(), second.leaves(), old_index);
            let fl = first.leaves();
            let sl = second.leaves();
            if fl.contains(old_index) {
                lemma_leaf_pos(*first, old_index);
                let p = first.leaf_pos(old_index);
                let f2 = first.spec_split_leaf(old_index, new_index, direction).0;
                assert(f2.leaves() + sl =~= (fl + sl).insert(p + 1, new_index));
            } else if sl.contains(old_index) {
                lemma_leaf_pos(*second, old_index);
                let q = second.leaf_pos(old_index);
                let s2 = second.spec_split_leaf(old_index, new_index, direction).0;
                assert(fl + s2.leaves() =~= (fl + sl).insert(fl.len() + q + 1, new_index));
            }
        },
    }
}

proof fn lemma_remove_leaf_leaves(node: PaneNode, removed_index: usize)
    requires
        node is Split,
        node.leaves().no_duplicates(),
        node.leaves().contains(removed_index),
    ensures
        node.spec_remove_leaf(removed_index).leaves() == node.leaves().remove(
            node.leaf_pos(removed_index),
        ),
    decreases node,
{
    match node {
        PaneNode::Leaf(_) => {},
        PaneNode::Split { direction, ratio, first, second } => {
            let fl = first.leaves();
            let sl = second.leaves();
            let all = fl + sl;
            lemma_contains_concat(fl, sl, removed_index);
            assert(fl.no_duplicates()) by {
                assert forall|i: int, j: int|
                    0 <= i < fl.len() && 0 <= j < fl.len() && i != j implies fl[i] != fl[j] by {
                    assert(all[i] == fl[i]);
                    assert(all[j] == fl[j]);
                }
            }
            assert(sl.no_duplicates()) by {
                assert forall|i: int, j: int|
                    0 <= i < sl.len() && 0 <= j < sl.len() && i != j implies sl[i] != sl[j] by {
                    assert(all[fl.len() + i] == sl[i]);
                    assert(all[fl.len() + j] == sl[j]);
                }
            }
            if fl.contains(removed_index) && sl.contains(removed_index) {
                let i = choose|i: int| 0 <= i < fl.len() && fl[i] == removed_index;
                let j = choose|j: int| 0 <= j < sl.len() && sl[j] == removed_index;
                assert(all[i] == all[fl.len() + j]);
                assert(false);
            }
            if fl.contains(removed_index) {
                lemma_leaf_pos(*first, removed_index);
                let p = first.leaf_pos(removed_index);
                if *first is Leaf {
                    assert(all.remove(0) =~= sl);
                } else {
                    lemma_remove_leaf_leaves(*first, removed_index);
                    let f2 = first.spec_remove_leaf(removed_index);
                    assert(f2.leaves() + sl =~= all.remove(p));
                }
            } else {
                lemma_leaf_pos(*second, removed_index);
                let q = second.leaf_pos(removed_index);
                if *second is Leaf {
                    assert(sl.len() == 1);
                    assert(all.remove(fl.len() + q) =~= fl);
                } else {
                    lemma_remove_leaf_leaves(*second, removed_index);
                    let s2 = second.spec_remove_leaf(removed_index);
                    assert(fl + s2.leaves() =~= all.remove(fl.len() + q));
                }
            }
        },
    }
}

proof fn lemma_shift_leaves(node: PaneNode, removed_index: usize)
    ensures
        node.spec_shift(removed_index).leaves() == node.leaves().map_values(
            |i: usize| shifted_index(i, removed_index),
        ),
    decreases node,
{
    match node {
        PaneNode::Leaf(index) => {
            assert(node.spec_shift(removed_index).leaves() =~= node.leaves().map_values(
                |i: usize| shifted_index(i, removed_index),
            ));
        },
        PaneNode::Split { first, second, .. } => {
            lemma_shift_leaves(*first, removed_index);
            lemma_shift_leaves(*second, removed_index);
            let f = |i: usize| shifted_index(i, removed_index);
            assert((first.leaves() + second.leaves()).map_values(f) =~= first.leaves().map_values(
                f,
            ) + second.leaves().map_values(f));
        },
    }
}

proof fn lemma_flat_leaves(n: nat, direction: SplitDirection)
    requires
        n >= 1,
        n <= usize::MAX,
    ensures
        PaneNode::spec_flat(n, direction).leaves() == index_range(n),
    decreases n,
{
    if n == 1 {
        assert(PaneNode::Leaf(0).leaves() == seq![0usize]);
        assert(PaneNode::spec_flat(n, direction).leaves() =~= index_range(n));
    } else {
        lemma_flat_leaves((n - 1) as nat, direction);
        assert(PaneNode::Leaf((n - 1) as usize).leaves() == seq![(n - 1) as usize]);
        assert(index_range((n - 1) as nat) + seq![(n - 1) as usize] =~= index_range(n));
    }
}

/// Closing a pane keeps the layout exact: when the leaves of a layout list
/// each of `0..n` once, removing the leaf `removed` and renumbering the panes
/// above it leaves a layout whose leaves list each of `0..n - 1` once.
pub proof fn law_close_keeps_permutation(layout: PaneNode, n: nat, removed: usize)
    requires
        is_index_permutation(layout.leaves(), n),
        n >= 2,
        n <= usize::MAX,
        removed < n,
    ensures
        is_index_permutation(
            layout.spec_remove_leaf(removed).spec_shift(removed).leaves(),
            (n - 1) as nat,
        ),
{
    let s = layout.leaves();
    assert(layout is Split) by {
        if layout is Leaf {
            assert(s.len() == 1);
        }
    }
    lemma_permutation_contains(s, n, removed);
    lemma_remove_leaf_leaves(layout, removed);
    lemma_leaf_pos(layout, removed);
    let p = layout.leaf_pos(removed);
    let t = s.remove(p);
    let removed_tree = layout.spec_remove_leaf(removed);
    lemma_shift_leaves(removed_tree, removed);
    let f = |i: usize| shifted_index(i, removed);
    let u = t.map_values(f);
    assert forall|i: int| 0 <= i < t.len() implies #[trigger] t[i] != removed && t[i] < n by {
        if i < p {
            assert(t[i] == s[i]);
        } else {
            assert(t[i] == s[i + 1]);
        }
    }
    assert forall|i: int, j: int|
        0 <= i < u.len() && 0 <= j < u.len() && i != j implies u[i] != u[j] by {
        let ii = if i < p { i } else { i + 1 };
        let jj = if j < p { j } else { j + 1 };
        assert(t[i] == s[ii]);
        assert(t[j] == s[jj]);
        assert(t[i] != removed);
        assert(t[j] != removed);
    }
    assert forall|i: int| 0 <= i < u.len() implies #[trigger] u[i] < n - 1 by {
        assert(t[i] != removed && t[i] < n);
    }
}

/// Splitting a pane into a new pane numbered `n` keeps the layout exact:
/// when the leaves list each of `0..n` once and `old_index` is one of them,
/// the leaves afterwards list each of `0..n + 1` once.
pub proof fn law_split_extends_permutation(
    layout: PaneNode,
    n: nat,
    old_index: usize,
    direction: SplitDirection,
)
    requires
        is_index_permutation(layout.leaves(), n),
        old_index < n,
        n <= usize::MAX,
    ensures
        layout.spec_split_leaf(old_index, n as usize, direction).1,
        is_index_permutation(
            layout.spec_split_leaf(old_index, n as usize, direction).0.leaves(),
            n + 1,
        ),
{
    let s = layout.leaves();
    lemma_permutation_contains(s, n, old_index);
    lemma_split_leaf_leaves(layout, old_index, n as usize, direction);
    lemma_leaf_pos(layout, old_index);
    let p = layout.leaf_pos(old_index);
    let t = s.insert(p + 1, n as usize);
    assert forall|i: int| 0 <= i < t.len() implies #[trigger] t[i] < n + 1 by {
        if i < p + 1 {
            assert(t[i] == s[i]);
        } else if i > p + 1 {
            assert(t[i] == s[i - 1]);
        }
    }
    assert forall|i: int, j: int|
        0 <= i < t.len() && 0 <= j < t.len() && i != j implies t[i] != t[j] by {
        if i != p + 1 && j != p + 1 {
            let ii = if i < p + 1 { i } else { i - 1 };
            let jj = if j < p + 1 { j } else { j - 1 };
            assert(t[i] == s[ii]);
            assert(t[j] == s[jj]);
        } else if i == p + 1 {
            let jj = if j < p + 1 { j } else { j - 1 };
            assert(t[j] == s[jj]);
        } else {
            let ii = if i < p + 1 { i } else { i - 1 };
            assert(t[i] == s[ii]);
        }
    }
}

/// A layout whose leaves list each of `0..n` once contains every index below `n`.
pub proof fn lemma_permutation_contains(s: Seq<usize>, n: nat, x: usize)
    requires
        is_index_permutation(s, n),
        n <= usize::MAX,
        x < n,
    ensures
        s.contains(x),
{
    let set_s = s.to_set();
    s.unique_seq_to_set();
    let full = Set::new(|i: usize| i < n);
    assert(set_s.subset_of(full));
    if !s.contains(x) {
        lemma_index_set_size(n);
        assert(!set_s.contains(x));
        assert(full.contains(x));
        assert(set_s.subset_of(full.remove(x)));
        vstd::set_lib::lemma_len_subset(set_s, full.remove(x));
        assert(false);
    }
}

proof fn lemma_index_set_size(n: nat)
    requires
        n <= usize::MAX,
    ensures
        Set::new(|i: usize| i < n).finite(),
        Set::new(|i: usize| i < n).len() == n,
    decreases n,
{
    if n == 0 {
        assert(Set::new(|i: usize| i < n) =~= Set::<usize>::empty());
    } else {
        lemma_index_set_size((n - 1) as nat);
        assert(!Set::new(|i: usize| i < (n - 1) as nat).contains((n - 1) as usize));
        assert(Set::new(|i: usize| i < n) =~= Set::new(|i: usize| i < (n - 1) as nat).insert(
            (n - 1) as usize,
        ));
    }
}

/// Removing an index above every leaf moves no leaf.
proof fn lemma_shift_above_all(node: PaneNode, removed: usize)
    requires
        all_below(node.leaves(), removed as nat),
    ensures
        node.spec_shift(removed) == node,
    decreases node,
{
    match node {
        PaneNode::Leaf(index) => {
            assert(node.leaves()[0] == index);
        },
        PaneNode::Split { first, second, .. } => {
            lemma_all_below_concat(first.leaves(), second.leaves(), removed as nat);
            lemma_shift_above_all(*first, removed);
            lemma_shift_above_all(*second, removed);
        },
    }
}

/// Closing the pane that a split has just opened gives back the layout from
/// before the split: the new split collapses into the old leaf, and, the
/// new pane's index being above every other, no index moves.
pub proof fn law_split_then_remove(
    node: PaneNode,
    old_index: usize,
    new_index: usize,
    direction: SplitDirection,
)
    requires
        node.leaves().contains(old_index),
        all_below(node.leaves(), new_index as nat),
    ensures
        node.spec_split_leaf(old_index, new_index, direction).0.spec_remove_leaf(new_index) == node,
        node.spec_shift(new_index) == node,
    decreases node,
{
    lemma_split_leaf_leaves(node, old_index, new_index, direction);
    lemma_shift_above_all(node, new_index);
    match node {
        PaneNode::Leaf(index) => {
            assert(node.leaves()[0] == index);
            let r = node.spec_split_leaf(old_index, new_index, direction).0;
            assert(PaneNode::Leaf(old_index).leaves() == seq![old_index]);
            assert(PaneNode::Leaf(new_index).leaves() == seq![new_index]);
            assert(!seq![old_index].contains(new_index)) by {
                assert(seq![old_index][0] == old_index);
            }
            assert(seq![new_index][0] == new_index);
        },
        PaneNode::Split { direction: d, ratio, first, second } => {
            let fl = first.leaves();
            let sl = second.leaves();
            lemma_all_below_concat(fl, sl, new_index as nat);
            lemma_contains_concat(fl, sl, old_index);
            lemma_split_leaf_leaves(*first, old_index, new_index, direction);
            lemma_split_leaf_leaves(*second, old_index, new_index, direction);
            assert(!fl.contains(new_index)) by {
                if fl.contains(new_index) {
                    let i = choose|i: int| 0 <= i < fl.len() && fl[i] == new_index;
                    assert(fl[i] < new_index);
                }
            }
            assert(!sl.contains(new_index)) by {
                if sl.contains(new_index) {
                    let i = choose|i: int| 0 <= i < sl.len() && sl[i] == new_index;
                    assert(sl[i] < new_index);
                }
            }
            if fl.contains(old_index) {
                law_split_then_remove(*first, old_index, new_index, direction);
                lemma_leaf_pos(*first, old_index);
                let f2 = first.spec_split_leaf(old_index, new_index, direction).0;
                assert(f2.leaves()[first.leaf_pos(old_index) + 1] == new_index);
                assert(f2.leaves().contains(new_index));
            } else {
                law_split_then_remove(*second, old_index, new_index, direction);
                lemma_leaf_pos(*second, old_index);
                let s2 = second.spec_split_leaf(old_index, new_index, direction).0;
                assert(s2.leaves()[second.leaf_pos(old_index) + 1] == new_index);
                assert(s2.leaves().contains(new_index));
            }
        },
    }
}

/// Closing a pane whose leaf is a direct child of a split puts the other
/// child in the split's place, exactly as it was: its own splits keep their
/// directions and ratios.
pub proof fn law_remove_direct_child(
    direction: SplitDirection,
    ratio: SplitRatio,
    removed: usize,
    other: PaneNode,
)
    requires
        !other.leaves().contains(removed),
    ensures
        (PaneNode::Split {
            direction,
            ratio,
            first: Box::new(PaneNode::Leaf(removed)),
            second: Box::new(other),
        }).spec_remove_leaf(removed) == other,
        (PaneNode::Split {
            direction,
            ratio,
            first: Box::new(other),
            second: Box::new(PaneNode::Leaf(removed)),
        }).spec_remove_leaf(removed) == other,
{
    assert(PaneNode::Leaf(removed).leaves() == seq![removed]);
    assert(seq![removed][0] == removed);
}

/// Closing a pane deeper down one child of a split keeps the split, its
/// direction and ratio, and its other child as they are; only the child
/// that holds the pane changes.
pub proof fn law_remove_keeps_enclosing_split(
    direction: SplitDirection,
    ratio: SplitRatio,
    holder: PaneNode,
    other: PaneNode,
    removed: usize,
)
    requires
        holder is Split,
        holder.leaves().contains(removed),
        !other.leaves().contains(removed),
    ensures
        (PaneNode::Split {
            direction,
            ratio,
            first: Box::new(holder),
            second: Box::new(other),
        }).spec_remove_leaf(removed) == (PaneNode::Split {
            direction,
            ratio,
            first: Box::new(holder.spec_remove_leaf(removed)),
            second: Box::new(other),
        }),
        (PaneNode::Split {
            direction,
            ratio,
            first: Box::new(other),
            second: Box::new(holder),
        }).spec_remove_leaf(removed) == (PaneNode::Split {
            direction,
            ratio,
            first: Box::new(other),
            second: Box::new(holder.spec_remove_leaf(removed)),
        }),
{
}

/// Closing a pane of a split whose panes are all different takes out
/// exactly that pane's leaf: the other leaves stay, in their order.
pub proof fn law_remove_takes_out_one_leaf(node: PaneNode, removed: usize)
    requires
        node is Split,
        node.leaves().no_duplicates(),
        node.leaves().contains(removed),
    ensures
        0 <= node.leaf_pos(removed) < node.leaves().len(),
        node.leaves()[node.leaf_pos(removed)] == removed,
        node.spec_remove_leaf(removed).leaves() == node.leaves().remove(node.leaf_pos(removed)),
{
    lemma_leaf_pos(node, removed);
    lemma_remove_leaf_leaves(node, removed);
}

impl PaneNode {
    /// The splits of the tree in preorder (a split, then those of its first
    /// child, then those of its second child): direction and ratio.
    pub open spec fn splits(self) -> Seq<(SplitDirection, SplitRatio)>
        decreases self,
    {
        match self {
            PaneNode::Leaf(_) => Seq::empty(),
            PaneNode::Split { direction, ratio, first, second } => seq![(direction, ratio)]
                + first.splits() + second.splits(),
        }
    }
}

/// The panes of a saved layout, left to right.
pub open spec fn session_leaves(layout: SessionPaneLayout) -> Seq<usize>
    decreases layout,
{
    match layout {
        SessionPaneLayout::Leaf(index) => seq![index],
        SessionPaneLayout::Split { first, second, .. } => session_leaves(*first) + session_leaves(
            *second,
        ),
    }
}

/// The splits of a saved layout in preorder: direction and ratio.
pub open spec fn session_splits(layout: SessionPaneLayout) -> Seq<(SplitDirection, SplitRatio)>
    decreases layout,
{
    match layout {
        SessionPaneLayout::Leaf(_) => Seq::empty(),
        SessionPaneLayout::Split { direction, ratio, first, second } => seq![(direction, ratio)]
            + session_splits(*first) + session_splits(*second),
    }
}

/// A saved layout lists the panes in the layout's own order, left to right,
/// and its splits in the same order with the same directions and ratios;
/// a layout read back from a save does the same. So a layout is saved and
/// read without mirroring or turning any split.
pub proof fn law_saved_layout_keeps_order(node: PaneNode, layout: SessionPaneLayout)
    ensures
        session_leaves(spec_to_session(node)) == node.leaves(),
        session_splits(spec_to_session(node)) == node.splits(),
        (spec_to_session(node) is Leaf) == (node is Leaf),
        spec_from_session(layout).leaves() == session_leaves(layout),
        spec_from_session(layout).splits() == session_splits(layout),
        (spec_from_session(layout) is Leaf) == (layout is Leaf),
    decreases node, layout,
{
    match node {
        PaneNode::Leaf(_) => {},
        PaneNode::Split { first, second, .. } => {
            law_saved_layout_keeps_order(*first, layout);
            law_saved_layout_keeps_order(*second, layout);
        },
    }
    match layout {
        SessionPaneLayout::Leaf(_) => {},
        SessionPaneLayout::Split { first, second, .. } => {
            law_saved_layout_keeps_order(node, *first);
            law_saved_layout_keeps_order(node, *second);
        },
    }
}

/// Splitting a pane turns its leaf into a split in the given direction at
/// one half, the pane first and the new pane second.
pub proof fn law_split_leaf_in_place(old_index: usize, new_index: usize, direction: SplitDirection)
    ensures
        PaneNode::Leaf(old_index).spec_split_leaf(old_index, new_index, direction) == (
            PaneNode::Split {
                direction,
                ratio: SplitRatio { num: 1, den: 2 },
                first: Box::new(PaneNode::Leaf(old_index)),
                second: Box::new(PaneNode::Leaf(new_index)),
            },
            true,
        ),
{
}

/// Splitting a pane deeper down one child of a split keeps the split, its
/// direction and ratio, and its other child as they are.
pub proof fn law_split_keeps_enclosing_split(
    direction: SplitDirection,
    ratio: SplitRatio,
    holder: PaneNode,
    other: PaneNode,
    old_index: usize,
    new_index: usize,
    split_direction: SplitDirection,
)
    requires
        holder.leaves().contains(old_index),
        !other.leaves().contains(old_index),
    ensures
        (PaneNode::Split {
            direction,
            ratio,
            first: Box::new(holder),
            second: Box::new(other),
        }).spec_split_leaf(old_index, new_index, split_direction).0 == (PaneNode::Split {
            direction,
            ratio,
            first: Box::new(holder.spec_split_leaf(old_index, new_index, split_direction).0),
            second: Box::new(other),
        }),
        (PaneNode::Split {
            direction,
            ratio,
            first: Box::new(other),
            second: Box::new(holder),
        }).spec_split_leaf(old_index, new_index, split_direction).0 == (PaneNode::Split {
            direction,
            ratio,
            first: Box::new(other),
            second: Box::new(holder.spec_split_leaf(old_index, new_index, split_direction).0),
        }),
{
    lemma_split_leaf_leaves(holder, old_index, new_index, split_direction);
    lemma_split_leaf_leaves(other, old_index, new_index, split_direction);
}

/// The flat layout of `n` panes lists the panes `0..n` in order, and all of
/// its `n - 1` splits go in `direction` at one half.
pub proof fn law_flat_layout(n: nat, direction: SplitDirection)
    requires
        1 <= n <= usize::MAX,
    ensures
        PaneNode::spec_flat(n, direction).leaves() == index_range(n),
        PaneNode::spec_flat(n, direction).splits() == Seq::new(
            (n - 1) as nat,
            |i: int| (direction, SplitRatio { num: 1, den: 2 }),
        ),
    decreases n,
{
    lemma_flat_leaves(n, direction);
    if n > 1 {
        law_flat_layout((n - 1) as nat, direction);
        assert(PaneNode::Leaf((n - 1) as usize).splits() == Seq::<(SplitDirection, SplitRatio)>::empty());
        assert(PaneNode::spec_flat(n, direction).splits() =~= Seq::new(
            (n - 1) as nat,
            |i: int| (direction, SplitRatio { num: 1, den: 2 }),
        ));
    } else {
        assert(PaneNode::spec_flat(n, direction).splits() =~= Seq::new(
            (n - 1) as nat,
            |i: int| (direction, SplitRatio { num: 1, den: 2 }),
        ));
    }
}

/// Setting the ratio of the split at a path (a separator drag) gives that
/// split the ratio and keeps the panes and their order; a path that leads
/// to no split leaves the tree as it is.
pub proof fn law_set_ratio(node: PaneNode, path: Seq<WhichChild>, ratio: SplitRatio)
    ensures
        node.spec_set_ratio(path, ratio).leaves() == node.leaves(),
        node.spec_split_at(path) is Some ==> split_has_ratio(
            node.spec_set_ratio(path, ratio).spec_split_at(path),
            ratio,
        ),
        node.spec_split_at(path) is None ==> node.spec_set_ratio(path, ratio) == node,
{
    lemma_set_ratio_facts(node, path, ratio);
}

} // verus!
