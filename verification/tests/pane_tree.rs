use kandume::pane_tree::{PaneNode, SplitDirection, SplitRatio, WhichChild};

fn half() -> SplitRatio {
    SplitRatio { num: 1, den: 2 }
}

fn leaves(node: &PaneNode) -> Vec<usize> {
    match node {
        PaneNode::Leaf(i) => vec![*i],
        PaneNode::Split { first, second, .. } => {
            let mut v = leaves(first);
            v.extend(leaves(second));
            v
        }
    }
}

#[test]
fn split_leaf_nests_at_active_leaf() {
    let mut layout = PaneNode::Leaf(0);
    assert!(layout.split_leaf(0, 1, SplitDirection::Vertical));
    assert!(layout.split_leaf(0, 2, SplitDirection::Horizontal));

    assert_eq!(
        layout,
        PaneNode::Split {
            direction: SplitDirection::Vertical,
            ratio: half(),
            first: Box::new(PaneNode::Split {
                direction: SplitDirection::Horizontal,
                ratio: half(),
                first: Box::new(PaneNode::Leaf(0)),
                second: Box::new(PaneNode::Leaf(2)),
            }),
            second: Box::new(PaneNode::Leaf(1)),
        }
    );
}

#[test]
fn remove_leaf_collapses_split_and_shifts_indices() {
    let mut layout = PaneNode::from_flat_panes(3, SplitDirection::Vertical).remove_leaf(1);
    layout.shift_after_removed(1);

    assert_eq!(
        layout,
        PaneNode::Split {
            direction: SplitDirection::Vertical,
            ratio: half(),
            first: Box::new(PaneNode::Leaf(0)),
            second: Box::new(PaneNode::Leaf(1)),
        }
    );
}

#[test]
fn split_leaf_of_missing_index_changes_nothing() {
    let mut layout = PaneNode::from_flat_panes(2, SplitDirection::Horizontal);
    assert!(!layout.split_leaf(7, 2, SplitDirection::Vertical));
    assert_eq!(layout, PaneNode::from_flat_panes(2, SplitDirection::Horizontal));
}

#[test]
fn flat_layout_lists_every_pane_in_order() {
    assert_eq!(leaves(&PaneNode::from_flat_panes(4, SplitDirection::Vertical)), vec![0, 1, 2, 3]);
    assert_eq!(PaneNode::from_flat_panes(0, SplitDirection::Vertical), PaneNode::Leaf(0));
    assert_eq!(PaneNode::from_flat_panes(1, SplitDirection::Horizontal), PaneNode::Leaf(0));
}

#[test]
fn removing_the_root_leaf_leaves_leaf_zero() {
    assert_eq!(PaneNode::Leaf(5).remove_leaf(5), PaneNode::Leaf(0));
}

#[test]
fn removing_an_absent_leaf_keeps_the_split() {
    let layout = PaneNode::from_flat_panes(2, SplitDirection::Vertical);
    assert_eq!(layout.remove_leaf(9), PaneNode::from_flat_panes(2, SplitDirection::Vertical));
}

#[test]
fn close_keeps_each_pane_listed_once() {
    // A nested layout over panes 0..4; closing pane 2 renumbers 3 to 2.
    let mut layout = PaneNode::Leaf(0);
    layout.split_leaf(0, 1, SplitDirection::Vertical);
    layout.split_leaf(1, 2, SplitDirection::Horizontal);
    layout.split_leaf(0, 3, SplitDirection::Horizontal);
    assert_eq!(leaves(&layout), vec![0, 3, 1, 2]);
    let mut closed = layout.remove_leaf(2);
    closed.shift_after_removed(2);
    assert_eq!(leaves(&closed), vec![0, 2, 1]);
}

#[test]
fn split_adds_the_new_pane_after_the_split_leaf() {
    let mut layout = PaneNode::from_flat_panes(3, SplitDirection::Vertical);
    assert!(layout.split_leaf(1, 3, SplitDirection::Horizontal));
    assert_eq!(leaves(&layout), vec![0, 1, 3, 2]);
}

#[test]
fn sanitize_keeps_a_valid_layout_and_replaces_an_invalid_one() {
    let layout = PaneNode::from_flat_panes(3, SplitDirection::Horizontal);
    assert_eq!(layout.sanitize(3), PaneNode::from_flat_panes(3, SplitDirection::Horizontal));
    let layout = PaneNode::from_flat_panes(3, SplitDirection::Horizontal);
    assert_eq!(layout.sanitize(2), PaneNode::from_flat_panes(2, SplitDirection::Vertical));
    assert_eq!(PaneNode::Leaf(4).sanitize(0), PaneNode::Leaf(0));
}

#[test]
fn leaf_queries() {
    let layout = PaneNode::from_flat_panes(3, SplitDirection::Vertical);
    assert!(layout.contains_leaf(2));
    assert!(!layout.contains_leaf(3));
    assert!(layout.all_leaves_valid(3));
    assert!(!layout.all_leaves_valid(2));
    assert!(!layout.is_single_leaf());
    assert!(PaneNode::Leaf(0).is_single_leaf());
    assert_eq!(layout.first_split_direction(), Some(SplitDirection::Vertical));
    assert_eq!(PaneNode::Leaf(0).first_split_direction(), None);
}

#[test]
fn pane_sizes_split_the_area_and_leave_a_title_row() {
    // 50 columns: a 1-column separator, 24 + 25 columns for the two panes.
    let layout = PaneNode::from_flat_panes(2, SplitDirection::Vertical);
    assert_eq!(layout.pane_sizes(50, 21), vec![(0, 24, 20), (1, 25, 20)]);
    // 21 rows split horizontally: 10 + 10 rows, each less its title row.
    let layout = PaneNode::from_flat_panes(2, SplitDirection::Horizontal);
    assert_eq!(layout.pane_sizes(50, 21), vec![(0, 50, 9), (1, 50, 9)]);
    // Tiny areas still give every pane one cell.
    assert_eq!(PaneNode::Leaf(0).pane_sizes(0, 0), vec![(0, 1, 1)]);
}

#[test]
fn pane_sizes_follow_the_ratio() {
    let layout = PaneNode::Split {
        direction: SplitDirection::Vertical,
        ratio: SplitRatio { num: 1, den: 4 },
        first: Box::new(PaneNode::Leaf(0)),
        second: Box::new(PaneNode::Leaf(1)),
    };
    // 41 columns less the separator: 10 and 30.
    assert_eq!(layout.pane_sizes(41, 5), vec![(0, 10, 4), (1, 30, 4)]);
}

#[test]
fn set_ratio_at_path_reaches_nested_splits_only() {
    let mut layout = PaneNode::from_flat_panes(3, SplitDirection::Vertical);
    let r = SplitRatio { num: 3, den: 7 };
    assert!(layout.set_ratio_at_path(&vec![WhichChild::First], r));
    match &layout {
        PaneNode::Split { ratio, first, .. } => {
            assert_eq!(*ratio, half());
            match first.as_ref() {
                PaneNode::Split { ratio, .. } => assert_eq!(*ratio, r),
                PaneNode::Leaf(_) => panic!("expected a split"),
            }
        }
        PaneNode::Leaf(_) => panic!("expected a split"),
    }
    let before = PaneNode::from_flat_panes(3, SplitDirection::Vertical);
    let mut same = PaneNode::from_flat_panes(3, SplitDirection::Vertical);
    assert!(!same.set_ratio_at_path(&vec![WhichChild::Second], r));
    assert_eq!(same, before);
}

#[test]
fn session_layout_round_trips() {
    let mut layout = PaneNode::Leaf(0);
    layout.split_leaf(0, 1, SplitDirection::Horizontal);
    layout.split_leaf(1, 2, SplitDirection::Vertical);
    let saved = layout.session_layout();
    assert_eq!(PaneNode::from_session_layout(saved), layout);
}

#[test]
fn closing_a_just_split_pane_gives_back_the_layout() {
    let mut layout = PaneNode::from_flat_panes(3, SplitDirection::Vertical);
    assert!(layout.split_leaf(1, 3, SplitDirection::Horizontal));
    let mut layout = layout.remove_leaf(3);
    layout.shift_after_removed(3);
    assert_eq!(layout, PaneNode::from_flat_panes(3, SplitDirection::Vertical));
}
