use kandume::layout::{
    compute_root_areas, hit_project_row, hit_separator, hit_test_pane_stack, pane_terminal_rect,
    centered_rect, leaf_areas, pointer_in_rect, split_chunks, split_first_size, PaneHit, Rect,
};
use kandume::pane_tree::{PaneNode, SplitDirection, SplitRatio, WhichChild};

fn rect(x: u16, y: u16, width: u16, height: u16) -> Rect {
    Rect { x, y, width, height }
}

fn half() -> SplitRatio {
    SplitRatio { num: 1, den: 2 }
}

#[test]
fn root_areas_of_a_standard_screen() {
    let root = compute_root_areas(rect(0, 0, 80, 24));
    assert_eq!(root.status, rect(0, 23, 80, 1));
    assert_eq!(root.sidebar, rect(0, 0, 30, 23));
    assert_eq!(root.projects_inner, rect(0, 3, 29, 20));
    assert_eq!(root.workspace, rect(30, 0, 50, 23));
    assert_eq!(root.window_tab_bar, rect(30, 0, 50, 1));
    assert_eq!(root.pane_stack, rect(30, 1, 50, 22));
}

#[test]
fn rect_new_clamps_to_the_coordinate_range() {
    assert_eq!(Rect::new(65530, 10, 100, 20), rect(65530, 10, 5, 20));
    assert_eq!(Rect::new(0, 0, 80, 24), rect(0, 0, 80, 24));
}

#[test]
fn pointer_inside_and_outside() {
    let r = rect(10, 5, 3, 2);
    assert!(pointer_in_rect(r, 10, 5));
    assert!(pointer_in_rect(r, 12, 6));
    assert!(!pointer_in_rect(r, 13, 6));
    assert!(!pointer_in_rect(r, 12, 7));
    assert!(!pointer_in_rect(r, 9, 5));
    assert!(!pointer_in_rect(rect(0, 0, 0, 0), 0, 0));
}

#[test]
fn project_rows() {
    let inner = rect(0, 3, 29, 20);
    assert_eq!(hit_project_row(inner, 1, 3, 2), Some(0));
    assert_eq!(hit_project_row(inner, 1, 4, 2), Some(1));
    assert_eq!(hit_project_row(inner, 1, 5, 2), None);
    assert_eq!(hit_project_row(inner, 1, 2, 2), None);
    assert_eq!(hit_project_row(inner, 1, 3, 0), None);
}

#[test]
fn first_size_of_a_split() {
    assert_eq!(split_first_size(49, half()), 24);
    assert_eq!(split_first_size(1, half()), 1);
    assert_eq!(split_first_size(0, half()), 1);
    assert_eq!(split_first_size(40, SplitRatio { num: 3, den: 4 }), 30);
    assert_eq!(split_first_size(40, SplitRatio { num: 5, den: 4 }), 40);
    assert_eq!(split_first_size(40, SplitRatio { num: 5, den: 0 }), 20);
    assert_eq!(split_first_size(65535, SplitRatio { num: 65535, den: 65535 }), 65535);
}

#[test]
fn chunks_of_a_vertical_split() {
    let chunks = split_chunks(SplitDirection::Vertical, half(), rect(30, 1, 50, 22));
    assert_eq!(chunks, vec![rect(30, 1, 24, 22), rect(54, 1, 1, 22), rect(55, 1, 25, 22)]);
}

#[test]
fn hits_in_the_pane_stack() {
    let layout = PaneNode::from_flat_panes(2, SplitDirection::Vertical);
    let stack = rect(30, 1, 50, 22);
    assert_eq!(hit_test_pane_stack(2, &layout, stack, 35, 1), Some(PaneHit::Title(0)));
    assert_eq!(
        hit_test_pane_stack(2, &layout, stack, 60, 10),
        Some(PaneHit::Terminal { pane: 1, local_col: 5, local_row: 8 })
    );
    assert_eq!(hit_test_pane_stack(2, &layout, stack, 54, 10), None);
    assert_eq!(hit_test_pane_stack(2, &layout, stack, 5, 10), None);
    assert_eq!(hit_test_pane_stack(0, &layout, stack, 35, 1), None);
    assert_eq!(hit_test_pane_stack(1, &layout, stack, 60, 10), None);
}

#[test]
fn terminal_rect_of_a_pane() {
    let layout = PaneNode::from_flat_panes(2, SplitDirection::Vertical);
    let stack = rect(30, 1, 50, 22);
    assert_eq!(pane_terminal_rect(2, &layout, stack, 1), Some(rect(55, 2, 25, 21)));
    assert_eq!(pane_terminal_rect(2, &layout, stack, 0), Some(rect(30, 2, 24, 21)));
    assert_eq!(pane_terminal_rect(2, &layout, stack, 2), None);
}

#[test]
fn separators_under_the_pointer() {
    let layout = PaneNode::from_flat_panes(3, SplitDirection::Vertical);
    let stack = rect(30, 1, 50, 22);
    let top = hit_separator(&layout, stack, 54, 10).unwrap();
    assert!(top.path.is_empty());
    assert_eq!(top.direction, SplitDirection::Vertical);
    assert_eq!(top.area, stack);
    // The first child (30..54) holds panes 0 and 1 split at its middle.
    let inner = hit_separator(&layout, stack, 41, 10).unwrap();
    assert_eq!(inner.path, vec![WhichChild::First]);
    assert_eq!(inner.area, rect(30, 1, 24, 22));
    assert!(hit_separator(&layout, stack, 35, 10).is_none());
    assert!(hit_separator(&PaneNode::Leaf(0), stack, 54, 10).is_none());
}

#[test]
fn narrow_splits_have_no_separator() {
    let layout = PaneNode::from_flat_panes(2, SplitDirection::Vertical);
    for col in 0..2 {
        assert!(hit_separator(&layout, rect(0, 0, 2, 5), col, 1).is_none());
    }
}

#[test]
fn a_hit_lands_at_its_offset_in_the_terminal_rect() {
    let layout = PaneNode::Split {
        direction: SplitDirection::Horizontal,
        ratio: SplitRatio { num: 1, den: 3 },
        first: Box::new(PaneNode::Leaf(1)),
        second: Box::new(PaneNode::Split {
            direction: SplitDirection::Vertical,
            ratio: half(),
            first: Box::new(PaneNode::Leaf(0)),
            second: Box::new(PaneNode::Leaf(2)),
        }),
    };
    let stack = rect(30, 1, 50, 22);
    for &(col, row) in &[(31u16, 3u16), (40, 15), (70, 20), (79, 22), (55, 9)] {
        if let Some(PaneHit::Terminal { pane, local_col, local_row }) =
            hit_test_pane_stack(3, &layout, stack, col, row)
        {
            let t = pane_terminal_rect(3, &layout, stack, pane).unwrap();
            assert!(pointer_in_rect(t, col, row));
            assert_eq!((local_col, local_row), (col - t.x, row - t.y));
        }
    }
    assert!(matches!(
        hit_test_pane_stack(3, &layout, stack, 70, 20),
        Some(PaneHit::Terminal { pane: 2, .. })
    ));
}

#[test]
fn splits_tile_the_area_exactly() {
    let c = split_chunks(SplitDirection::Vertical, half(), rect(5, 2, 1, 4));
    assert_eq!(c, vec![rect(5, 2, 1, 4), rect(6, 2, 0, 4), rect(6, 2, 0, 4)]);
    let c = split_chunks(SplitDirection::Horizontal, SplitRatio { num: 1, den: 3 }, rect(0, 0, 10, 10));
    assert_eq!(c, vec![rect(0, 0, 10, 3), rect(0, 3, 10, 1), rect(0, 4, 10, 6)]);
    let root = compute_root_areas(rect(0, 0, 20, 1));
    assert_eq!(root.status, rect(0, 1, 20, 0));
    assert_eq!(root.sidebar, rect(0, 0, 19, 1));
    assert_eq!(root.workspace, rect(19, 0, 1, 1));
}

#[test]
fn help_overlay_is_centred() {
    assert_eq!(centered_rect(68, 56, rect(0, 0, 80, 24)), rect(13, 5, 54, 14));
    assert_eq!(centered_rect(100, 100, rect(3, 4, 10, 10)), rect(3, 4, 10, 10));
}

#[test]
fn drawn_terminals_have_their_pane_sizes() {
    let layout = PaneNode::Split {
        direction: SplitDirection::Vertical,
        ratio: SplitRatio { num: 1, den: 3 },
        first: Box::new(PaneNode::Leaf(0)),
        second: Box::new(PaneNode::Split {
            direction: SplitDirection::Horizontal,
            ratio: SplitRatio { num: 3, den: 4 },
            first: Box::new(PaneNode::Leaf(1)),
            second: Box::new(PaneNode::Leaf(2)),
        }),
    };
    let stack = rect(30, 1, 50, 22);
    let sizes = layout.pane_sizes(50, 22);
    for &(pane, cols, rows) in &sizes {
        let t = pane_terminal_rect(3, &layout, stack, pane).unwrap();
        assert_eq!((t.width, t.height), (cols, rows));
    }
    assert_eq!(sizes, vec![(0, 16, 21), (1, 33, 14), (2, 33, 5)]);
}

#[test]
fn the_project_list_lies_in_the_sidebar() {
    let root = compute_root_areas(rect(0, 0, 80, 24));
    let inner = root.projects_inner;
    let side = root.sidebar;
    assert!(inner.x >= side.x && inner.x + inner.width <= side.x + side.width);
    assert!(inner.y >= side.y && inner.y + inner.height <= side.y + side.height);
    assert_eq!(root.pane_stack.x, side.x + side.width);
}

#[test]
fn a_pane_is_a_title_row_over_its_terminal() {
    assert_eq!(leaf_areas(rect(2, 3, 10, 5)), vec![rect(2, 3, 10, 1), rect(2, 4, 10, 4)]);
    assert_eq!(leaf_areas(rect(2, 3, 10, 1)), vec![rect(2, 3, 10, 0), rect(2, 3, 10, 1)]);
}
