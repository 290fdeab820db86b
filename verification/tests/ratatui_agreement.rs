use kandume::layout::{centered_rect, compute_root_areas, leaf_areas, Rect};
use ratatui::layout as tui;

fn rect(x: u16, y: u16, width: u16, height: u16) -> Rect {
    Rect { x, y, width, height }
}

fn from_tui(r: tui::Rect) -> Rect {
    Rect { x: r.x, y: r.y, width: r.width, height: r.height }
}

fn split(area: Rect, direction: tui::Direction, constraints: Vec<tui::Constraint>) -> Vec<Rect> {
    let a = tui::Rect { x: area.x, y: area.y, width: area.width, height: area.height };
    tui::Layout::default()
        .direction(direction)
        .constraints(constraints)
        .split(a)
        .iter()
        .map(|r| from_tui(*r))
        .collect()
}

#[test]
fn root_areas_agree_with_the_solver_on_min_and_length() {
    for width in (32..=120u16).step_by(4) {
        for height in (4..=40u16).step_by(3) {
            let area = rect(0, 0, width, height);
            let root = compute_root_areas(area);
            let vertical = split(
                area,
                tui::Direction::Vertical,
                vec![tui::Constraint::Min(1), tui::Constraint::Length(1)],
            );
            let body = split(
                vertical[0],
                tui::Direction::Horizontal,
                vec![tui::Constraint::Length(30), tui::Constraint::Min(1)],
            );
            let workspace = split(
                body[1],
                tui::Direction::Vertical,
                vec![tui::Constraint::Length(1), tui::Constraint::Min(1)],
            );
            assert_eq!(root.status, vertical[1]);
            assert_eq!(root.sidebar, body[0]);
            assert_eq!(root.workspace, body[1]);
            assert_eq!(root.window_tab_bar, workspace[0]);
            assert_eq!(root.pane_stack, workspace[1]);
        }
    }
}

#[test]
fn pane_areas_agree_with_the_solver() {
    for height in 2..=60u16 {
        let area = rect(3, 2, 17, height);
        let expected = split(
            area,
            tui::Direction::Vertical,
            vec![tui::Constraint::Length(1), tui::Constraint::Min(1)],
        );
        assert_eq!(leaf_areas(area), expected);
    }
}

#[test]
fn the_help_overlay_agrees_with_the_solver_on_percentages() {
    for width in (10..=200u16).step_by(9) {
        for height in (5..=60u16).step_by(5) {
            let area = rect(0, 0, width, height);
            let vertical = split(
                area,
                tui::Direction::Vertical,
                vec![
                    tui::Constraint::Percentage(22),
                    tui::Constraint::Percentage(56),
                    tui::Constraint::Percentage(22),
                ],
            );
            let horizontal = split(
                vertical[1],
                tui::Direction::Horizontal,
                vec![
                    tui::Constraint::Percentage(16),
                    tui::Constraint::Percentage(68),
                    tui::Constraint::Percentage(16),
                ],
            );
            assert_eq!(centered_rect(68, 56, area), horizontal[1], "{width}x{height}");
        }
    }
}
