use kandume::app::{
    compute_drag_ratio, restore_window, window_tab_idx_at_col, App, CloseOutcome, Command,
    MouseEvent, PaneWrite, Project, RenameState, SplitRequest, WindowPage,
};
use kandume::input::{KeyCode, KeyEvent, KeyModifiers};
use kandume::layout::Rect;
use kandume::mouse::{MouseButton, MouseEventKind};
use kandume::pane_tree::{PaneNode, SplitDirection, SplitRatio};
use kandume::session::{SessionPaneLayout, SessionWindow};
use kandume::terminal::{canonical_or_given, normalize_cwd, TerminalTab};

fn tab(id: u64, name: &str, cwd: &str) -> TerminalTab {
    TerminalTab::spawn(id, name.to_string(), cwd.to_string(), "/bin/sh".to_string(), 50, 21)
}

fn key(ch: char) -> KeyEvent {
    KeyEvent { code: KeyCode::Char(ch), modifiers: KeyModifiers::empty() }
}

fn special(code: KeyCode) -> KeyEvent {
    KeyEvent { code, modifiers: KeyModifiers::empty() }
}

fn prefix() -> KeyEvent {
    KeyEvent { code: KeyCode::Char('b'), modifiers: KeyModifiers { shift: false, control: true, alt: false } }
}

fn command(app: &mut App, ch: char) -> Command {
    assert_eq!(app.handle_key(prefix()), Command::Nothing);
    app.handle_key(key(ch))
}

fn mouse(kind: MouseEventKind, column: u16, row: u16) -> MouseEvent {
    MouseEvent { kind, column, row, modifiers: KeyModifiers::empty() }
}

/// A workspace with one project in /home/me and one pane.
fn one_project() -> App {
    let mut app = App::new(80, 24);
    let id = app.allocate_tab_id();
    app.add_project("/home/me".to_string(), tab(id, "pane 1", "/home/me"));
    app
}

fn split(app: &mut App, direction: SplitDirection) {
    match app.split_request() {
        SplitRequest::Spawn { cwd, name } => {
            let id = app.allocate_tab_id();
            app.add_split_pane(direction, tab(id, &name, &cwd));
        }
        other => panic!("unexpected {other:?}"),
    }
}

fn window(app: &App) -> &WindowPage {
    app.active_window().unwrap()
}

#[test]
fn new_app_sizes_the_terminal_area() {
    let app = App::new(80, 24);
    assert_eq!(app.terminal_cols, 50);
    assert_eq!(app.terminal_rows, 21);
    assert!(app.projects.is_empty());
    let small = App::new(10, 2);
    assert_eq!(small.terminal_cols, 1);
    assert_eq!(small.terminal_rows, 1);
}

#[test]
fn a_new_project_has_one_window_and_one_resized_pane() {
    let app = one_project();
    assert_eq!(app.projects.len(), 1);
    let p = app.active_project().unwrap();
    assert_eq!(p.name, "me");
    assert_eq!(p.cwd, "/home/me");
    assert_eq!(p.windows.len(), 1);
    let w = window(&app);
    assert_eq!(w.name, "window 1");
    assert_eq!(w.layout, PaneNode::Leaf(0));
    assert_eq!((w.panes[0].cols, w.panes[0].rows), (50, 20));
    assert_eq!(app.next_tab_id, 2);
}

#[test]
fn split_nests_the_active_pane() {
    let mut app = one_project();
    assert_eq!(command(&mut app, '%'), Command::Split(SplitDirection::Vertical));
    assert_eq!(
        app.split_request(),
        SplitRequest::Spawn { cwd: "/home/me".to_string(), name: "pane 2".to_string() }
    );
    split(&mut app, SplitDirection::Vertical);
    let w = window(&app);
    assert_eq!(w.panes.len(), 2);
    assert_eq!(w.active_pane, 1);
    assert_eq!((w.panes[0].cols, w.panes[1].cols), (24, 25));
    assert_eq!(command(&mut app, '"'), Command::Split(SplitDirection::Horizontal));
    split(&mut app, SplitDirection::Horizontal);
    let w = window(&app);
    assert_eq!(w.active_pane, 2);
    assert_eq!(w.panes[2].name, "pane 3");
    assert_eq!((w.panes[1].rows, w.panes[2].rows), (9, 9));
}

#[test]
fn split_request_without_a_project() {
    let app = App::new(80, 24);
    assert_eq!(app.split_request(), SplitRequest::NoProject);
    assert!(app.new_window_request().is_none());
}

#[test]
fn closing_a_pane_renumbers_the_rest() {
    let mut app = one_project();
    split(&mut app, SplitDirection::Vertical);
    split(&mut app, SplitDirection::Horizontal);
    app.previous_pane();
    assert_eq!(window(&app).active_pane, 1);
    assert_eq!(app.close_active_pane(), CloseOutcome::PaneClosed);
    let w = window(&app);
    assert_eq!(w.panes.len(), 2);
    assert_eq!(w.panes[1].name, "pane 3");
    assert_eq!(w.active_pane, 1);
    assert_eq!(
        w.layout,
        PaneNode::Split {
            direction: SplitDirection::Vertical,
            ratio: SplitRatio { num: 1, den: 2 },
            first: Box::new(PaneNode::Leaf(0)),
            second: Box::new(PaneNode::Leaf(1)),
        }
    );
    assert_eq!((w.panes[0].cols, w.panes[1].cols), (24, 25));
}

#[test]
fn closing_the_last_pane_of_a_window_closes_the_window() {
    let mut app = one_project();
    assert_eq!(command(&mut app, 'c'), Command::NewWindow);
    let (cwd, name) = app.new_window_request().unwrap();
    assert_eq!((cwd.as_str(), name.as_str()), ("/home/me", "window 2"));
    let id = app.allocate_tab_id();
    app.add_window(name, tab(id, "pane 1", &cwd));
    assert_eq!(app.active_project().unwrap().active_window, 1);
    assert_eq!(command(&mut app, 'x'), Command::Nothing);
    let p = app.active_project().unwrap();
    assert_eq!(p.windows.len(), 1);
    assert_eq!(p.active_window, 0);
}

#[test]
fn closing_the_last_pane_of_a_project_starts_it_afresh() {
    let mut app = one_project();
    app.projects[0].name = "renamed".to_string();
    assert_eq!(command(&mut app, 'x'), Command::FreshProject);
    assert_eq!(app.projects[0].name, "renamed");
    let id = app.allocate_tab_id();
    app.replace_with_fresh_project("/home/other".to_string(), tab(id, "pane 1", "/home/other"));
    let p = &app.projects[0];
    assert_eq!(p.name, "other");
    assert_eq!(p.windows.len(), 1);
    assert_eq!(p.windows[0].panes[0].id, id);
}

#[test]
fn project_navigation_wraps_and_comes_back() {
    let mut app = one_project();
    let id = app.allocate_tab_id();
    app.add_project("/srv".to_string(), tab(id, "pane 1", "/srv"));
    let id = app.allocate_tab_id();
    app.add_project("/opt".to_string(), tab(id, "pane 1", "/opt"));
    assert_eq!(app.active_project, 2);
    command(&mut app, 'n');
    assert_eq!(app.active_project, 0);
    command(&mut app, 'p');
    assert_eq!(app.active_project, 2);
    command(&mut app, '2');
    assert_eq!(app.active_project, 1);
    command(&mut app, '9');
    assert_eq!(app.active_project, 1);
    for start in 0..3 {
        app.select_project(start);
        app.next_project();
        app.previous_project();
        assert_eq!(app.active_project, start);
    }
}

#[test]
fn window_and_pane_navigation() {
    let mut app = one_project();
    let id = app.allocate_tab_id();
    app.add_window("window 2".to_string(), tab(id, "pane 1", "/home/me"));
    command(&mut app, ']');
    assert_eq!(app.active_project().unwrap().active_window, 0);
    command(&mut app, '[');
    assert_eq!(app.active_project().unwrap().active_window, 1);
    split(&mut app, SplitDirection::Vertical);
    command(&mut app, 'o');
    assert_eq!(window(&app).active_pane, 0);
    command(&mut app, ';');
    assert_eq!(window(&app).active_pane, 1);
}

#[test]
fn keys_go_to_the_active_pane_unless_help_is_shown() {
    let mut app = one_project();
    assert_eq!(
        app.handle_key(key('a')),
        Command::Write(PaneWrite { pane_id: 1, bytes: b"a".to_vec() })
    );
    command(&mut app, '?');
    assert!(app.show_help);
    assert_eq!(app.handle_key(key('a')), Command::Nothing);
    command(&mut app, '?');
    assert!(!app.show_help);
}

#[test]
fn quitting() {
    let mut app = one_project();
    assert_eq!(command(&mut app, 'd'), Command::SaveSession);
    assert!(app.should_quit);
    let mut app = one_project();
    assert_eq!(command(&mut app, 'q'), Command::Nothing);
    assert!(app.should_quit);
    assert!(!app.prefix_active);
}

#[test]
fn prefix_state_is_shown() {
    let mut app = one_project();
    app.handle_key(prefix());
    assert!(app.prefix_active);
    app.handle_key(key('z'));
    assert!(!app.prefix_active);
}

#[test]
fn renaming_trims_and_confirms_with_enter() {
    let mut app = one_project();
    command(&mut app, ',');
    assert_eq!(app.rename_state, RenameState::Project { buffer: "me".to_string() });
    for _ in 0..2 {
        app.handle_key(special(KeyCode::Backspace));
    }
    for ch in "  work  ".chars() {
        app.handle_key(key(ch));
    }
    assert_eq!(app.rename_state, RenameState::Project { buffer: "  work  ".to_string() });
    app.handle_key(special(KeyCode::Enter));
    assert_eq!(app.rename_state, RenameState::Idle);
    assert_eq!(app.projects[0].name, "work");

    command(&mut app, '.');
    app.handle_key(key('X'));
    app.handle_key(special(KeyCode::Enter));
    assert_eq!(window(&app).name, "window 1X");

    command(&mut app, 'r');
    app.handle_key(key('!'));
    app.handle_key(special(KeyCode::Enter));
    assert_eq!(window(&app).panes[0].name, "pane 1!");
}

#[test]
fn escape_cancels_and_blank_names_are_ignored() {
    let mut app = one_project();
    command(&mut app, ',');
    app.handle_key(key('z'));
    app.handle_key(special(KeyCode::Esc));
    assert_eq!(app.rename_state, RenameState::Idle);
    assert_eq!(app.projects[0].name, "me");
    command(&mut app, ',');
    app.handle_key(special(KeyCode::Backspace));
    app.handle_key(special(KeyCode::Backspace));
    app.handle_key(special(KeyCode::Backspace));
    app.handle_key(key(' '));
    app.handle_key(special(KeyCode::Enter));
    assert_eq!(app.projects[0].name, "me");
}

#[test]
fn saved_session_restores_layout_and_names() {
    let mut app = one_project();
    split(&mut app, SplitDirection::Vertical);
    split(&mut app, SplitDirection::Horizontal);
    app.previous_pane();
    let saved = app.session_state();
    assert_eq!(saved.active_project, 0);
    let project = &saved.projects[0];
    assert_eq!(project.name, "me");
    let saved_window = &project.windows[0];
    assert_eq!(saved_window.split_direction, SplitDirection::Vertical);
    assert_eq!(saved_window.panes.len(), 3);
    assert!(saved_window.layout.is_some());

    let mut restored = App::new(80, 24);
    for project in saved.projects {
        let mut windows = Vec::new();
        for w in project.windows {
            let mut panes = Vec::new();
            for pane in &w.panes {
                let id = restored.allocate_tab_id();
                panes.push(TerminalTab::from_session(id, pane.clone(), 50, 21));
            }
            windows.push(restore_window(w, panes));
        }
        restored.push_restored_project(project.name, project.cwd, project.active_window, windows);
    }
    assert!(restored.finish_restore(saved.active_project));
    restored.resize_all_panes();
    let before = window(&app);
    let back = window(&restored);
    assert_eq!(back.layout, before.layout);
    assert_eq!(back.active_pane, before.active_pane);
    assert_eq!(back.name, before.name);
    for (a, b) in before.panes.iter().zip(back.panes.iter()) {
        assert_eq!((a.name.as_str(), a.cwd.as_str(), a.cols, a.rows), (b.name.as_str(), b.cwd.as_str(), b.cols, b.rows));
    }
}

#[test]
fn restoring_out_of_range_indices_and_bad_layouts() {
    let window = SessionWindow {
        name: "w".to_string(),
        active_pane: 9,
        split_direction: SplitDirection::Horizontal,
        layout: Some(SessionPaneLayout::Leaf(4)),
        panes: vec![],
    };
    let restored = restore_window(window, vec![tab(1, "a", "/"), tab(2, "b", "/")]);
    assert_eq!(restored.active_pane, 1);
    assert_eq!(restored.layout, PaneNode::from_flat_panes(2, SplitDirection::Vertical));
    let window = SessionWindow {
        name: "w".to_string(),
        active_pane: 0,
        split_direction: SplitDirection::Horizontal,
        layout: None,
        panes: vec![],
    };
    let restored = restore_window(window, vec![tab(1, "a", "/"), tab(2, "b", "/")]);
    assert_eq!(restored.layout, PaneNode::from_flat_panes(2, SplitDirection::Horizontal));
    let mut app = App::new(80, 24);
    assert!(!app.finish_restore(3));
    app.push_restored_project("p".to_string(), "/".to_string(), 7, vec![restore_window(
        SessionWindow { name: "w".to_string(), active_pane: 0, split_direction: SplitDirection::Vertical, layout: None, panes: vec![] },
        vec![tab(1, "a", "/")],
    )]);
    assert_eq!(app.projects[0].active_window, 0);
    assert!(app.finish_restore(3));
    assert_eq!(app.active_project, 0);
}

#[test]
fn sidebar_click_selects_a_project() {
    let mut app = one_project();
    let id = app.allocate_tab_id();
    app.add_project("/srv".to_string(), tab(id, "pane 1", "/srv"));
    assert_eq!(app.handle_mouse(mouse(MouseEventKind::Down(MouseButton::Left), 1, 3)), None);
    assert_eq!(app.active_project, 0);
    app.handle_mouse(mouse(MouseEventKind::Down(MouseButton::Left), 1, 4));
    assert_eq!(app.active_project, 1);
    app.handle_mouse(mouse(MouseEventKind::Down(MouseButton::Right), 1, 3));
    assert_eq!(app.active_project, 1);
}

#[test]
fn clicks_reach_panes_that_asked_for_the_mouse() {
    let mut app = one_project();
    // Without mouse reporting the click only focuses the pane.
    assert_eq!(app.handle_mouse(mouse(MouseEventKind::Down(MouseButton::Left), 35, 5)), None);
    assert_eq!(app.mouse_grab_pane, None);
    app.set_mouse_reporting(1, true);
    let report = app.handle_mouse(mouse(MouseEventKind::Down(MouseButton::Left), 35, 5));
    assert_eq!(report, Some(PaneWrite { pane_id: 1, bytes: b"\x1b[<0;6;4M".to_vec() }));
    assert_eq!(app.mouse_grab_pane, Some(0));
    let drag = app.handle_mouse(mouse(MouseEventKind::Drag(MouseButton::Left), 36, 6));
    assert_eq!(drag, Some(PaneWrite { pane_id: 1, bytes: b"\x1b[<32;7;5M".to_vec() }));
    let up = app.handle_mouse(mouse(MouseEventKind::Up(MouseButton::Left), 200, 200));
    assert_eq!(up, Some(PaneWrite { pane_id: 1, bytes: b"\x1b[<3;50;20m".to_vec() }));
    assert_eq!(app.mouse_grab_pane, None);
    let wheel = app.handle_mouse(mouse(MouseEventKind::ScrollUp, 31, 2));
    assert_eq!(wheel, Some(PaneWrite { pane_id: 1, bytes: b"\x1b[<64;2;1M".to_vec() }));
}

#[test]
fn hovering_never_reports_and_reports_need_the_mouse() {
    let mut app = one_project();
    split(&mut app, SplitDirection::Vertical);
    app.set_mouse_reporting(1, true);
    // Hover over a pane whose program takes mouse reports: nothing is sent.
    assert_eq!(app.handle_mouse(mouse(MouseEventKind::Moved, 35, 5)), None);
    // The wheel over the second pane, which did not ask for the mouse.
    assert_eq!(app.handle_mouse(mouse(MouseEventKind::ScrollUp, 70, 5)), None);
    assert_eq!(window(&app).active_pane, 1);
    // The wheel over the first pane reports to it.
    let wheel = app.handle_mouse(mouse(MouseEventKind::ScrollUp, 31, 2));
    assert!(matches!(wheel, Some(PaneWrite { pane_id: 1, .. })));
}

#[test]
fn clicks_and_wheel_focus_panes() {
    let mut app = one_project();
    split(&mut app, SplitDirection::Vertical);
    assert_eq!(window(&app).active_pane, 1);
    app.handle_mouse(mouse(MouseEventKind::Down(MouseButton::Left), 31, 1));
    assert_eq!(window(&app).active_pane, 0);
    app.handle_mouse(mouse(MouseEventKind::ScrollDown, 60, 10));
    assert_eq!(window(&app).active_pane, 1);
    app.handle_mouse(mouse(MouseEventKind::ScrollDown, 31, 1));
    assert_eq!(window(&app).active_pane, 0);
}

#[test]
fn separators_highlight_and_drag() {
    let mut app = one_project();
    split(&mut app, SplitDirection::Vertical);
    app.handle_mouse(mouse(MouseEventKind::Moved, 54, 10));
    assert_eq!(app.hover_separator, Some(vec![]));
    assert_eq!(app.separator_highlight(), Some(&vec![]));
    app.handle_mouse(mouse(MouseEventKind::Moved, 40, 10));
    assert_eq!(app.hover_separator, None);
    app.handle_mouse(mouse(MouseEventKind::Down(MouseButton::Left), 54, 10));
    assert!(app.separator_drag.is_some());
    app.handle_mouse(mouse(MouseEventKind::Drag(MouseButton::Left), 40, 10));
    match &window(&app).layout {
        PaneNode::Split { ratio, .. } => assert_eq!(*ratio, SplitRatio { num: 10, den: 49 }),
        PaneNode::Leaf(_) => panic!("expected a split"),
    }
    assert_eq!((window(&app).panes[0].cols, window(&app).panes[1].cols), (10, 39));
    app.handle_mouse(mouse(MouseEventKind::Up(MouseButton::Left), 40, 10));
    assert!(app.separator_drag.is_none());
}

#[test]
fn window_bar_clicks_select_windows() {
    let mut app = one_project();
    let id = app.allocate_tab_id();
    app.add_window("w2".to_string(), tab(id, "pane 1", "/home/me"));
    // " 1:window 1 " takes 12 cells and a space: columns 30..43.
    app.handle_mouse(mouse(MouseEventKind::Down(MouseButton::Left), 31, 0));
    assert_eq!(app.active_project().unwrap().active_window, 0);
    app.handle_mouse(mouse(MouseEventKind::Down(MouseButton::Left), 43, 0));
    assert_eq!(app.active_project().unwrap().active_window, 1);
    app.handle_mouse(mouse(MouseEventKind::Down(MouseButton::Left), 70, 0));
    assert_eq!(app.active_project().unwrap().active_window, 1);
}

#[test]
fn mouse_is_ignored_while_help_or_rename_is_open() {
    let mut app = one_project();
    let id = app.allocate_tab_id();
    app.add_project("/srv".to_string(), tab(id, "pane 1", "/srv"));
    command(&mut app, '?');
    app.handle_mouse(mouse(MouseEventKind::Down(MouseButton::Left), 1, 3));
    assert_eq!(app.active_project, 1);
    command(&mut app, '?');
    command(&mut app, ',');
    app.handle_mouse(mouse(MouseEventKind::Down(MouseButton::Left), 1, 3));
    assert_eq!(app.active_project, 1);
}

#[test]
fn resizing_the_screen_resizes_panes() {
    let mut app = one_project();
    split(&mut app, SplitDirection::Vertical);
    app.resize(100, 30);
    assert_eq!((app.terminal_cols, app.terminal_rows), (70, 27));
    let w = window(&app);
    assert_eq!((w.panes[0].cols, w.panes[0].rows), (34, 26));
    assert_eq!((w.panes[1].cols, w.panes[1].rows), (35, 26));
}

#[test]
fn drag_ratios_stay_inside_the_split() {
    let area = Rect { x: 30, y: 1, width: 50, height: 22 };
    assert_eq!(compute_drag_ratio(SplitDirection::Vertical, area, 40, 0), SplitRatio { num: 10, den: 49 });
    assert_eq!(compute_drag_ratio(SplitDirection::Vertical, area, 0, 0), SplitRatio { num: 1, den: 49 });
    assert_eq!(compute_drag_ratio(SplitDirection::Vertical, area, 200, 0), SplitRatio { num: 48, den: 49 });
    assert_eq!(compute_drag_ratio(SplitDirection::Horizontal, area, 0, 12), SplitRatio { num: 11, den: 21 });
    let empty = Rect { x: 0, y: 0, width: 0, height: 0 };
    assert_eq!(compute_drag_ratio(SplitDirection::Vertical, empty, 3, 3), SplitRatio { num: 1, den: 2 });
}

#[test]
fn window_tabs_by_column() {
    let project = Project {
        name: "p".to_string(),
        cwd: "/".to_string(),
        windows: vec![
            WindowPage { name: "ab".to_string(), panes: vec![], active_pane: 0, layout: PaneNode::Leaf(0) },
            WindowPage { name: "é".to_string(), panes: vec![], active_pane: 0, layout: PaneNode::Leaf(0) },
        ],
        active_window: 0,
    };
    let bar = Rect { x: 10, y: 0, width: 30, height: 1 };
    // " 1:ab " and a space: 7 cells; " 2:é " and a space: 6 cells.
    assert_eq!(window_tab_idx_at_col(&project, bar, 10), Some(0));
    assert_eq!(window_tab_idx_at_col(&project, bar, 16), Some(0));
    assert_eq!(window_tab_idx_at_col(&project, bar, 17), Some(1));
    assert_eq!(window_tab_idx_at_col(&project, bar, 22), Some(1));
    assert_eq!(window_tab_idx_at_col(&project, bar, 23), None);
    let short = Rect { x: 10, y: 0, width: 5, height: 1 };
    assert_eq!(window_tab_idx_at_col(&project, short, 18), None);
}

#[test]
fn working_directories_are_normalized() {
    assert_eq!(normalize_cwd("/"), "/");
    assert_eq!(normalize_cwd("/tmp/../"), "/");
    assert_eq!(normalize_cwd("/no/such/dir/here"), "/no/such/dir/here");
    assert_eq!(canonical_or_given("x", Some("y".to_string())), "y");
    assert_eq!(canonical_or_given("x", None), "x");
    assert!(normalize_cwd(".").starts_with('/'));
}

#[test]
fn deleting_a_project_asks_first_then_saves() {
    let mut app = one_project();
    let id = app.allocate_tab_id();
    app.add_project("/srv/work".to_string(), tab(id, "pane 1", "/srv/work"));
    assert_eq!(app.active_project, 1);
    assert_eq!(command(&mut app, 'D'), Command::Nothing);
    assert_eq!(app.rename_state, RenameState::ConfirmDelete);
    // Any other key cancels.
    assert_eq!(app.handle_key(key('n')), Command::Nothing);
    assert_eq!(app.rename_state, RenameState::Idle);
    assert_eq!(app.projects.len(), 2);
    // A confirmation deletes the project and saves.
    command(&mut app, 'D');
    assert_eq!(app.handle_key(key('y')), Command::SaveSession);
    assert_eq!(app.projects.len(), 1);
    assert_eq!(app.active_project, 0);
    assert_eq!(app.projects[0].name, "me");
    command(&mut app, 'D');
    assert_eq!(app.handle_key(special(KeyCode::Enter)), Command::SaveSession);
    assert!(app.projects.is_empty());
    assert!(!app.should_quit);
}

#[test]
fn editing_the_shell_restarts_the_pane() {
    let mut app = one_project();
    app.set_mouse_reporting(1, true);
    assert_eq!(command(&mut app, 'e'), Command::Nothing);
    assert_eq!(app.rename_state, RenameState::Shell { buffer: "/bin/sh".to_string() });
    for _ in 0..2 {
        app.handle_key(special(KeyCode::Backspace));
    }
    for ch in "bash ".chars() {
        app.handle_key(key(ch));
    }
    assert_eq!(app.handle_key(special(KeyCode::Enter)), Command::Restart(1));
    let pane = &window(&app).panes[0];
    assert_eq!(pane.shell, "/bin/bash");
    assert_eq!(pane.id, 1);
    assert!(!pane.mouse_reporting);
    assert_eq!(app.rename_state, RenameState::Idle);
    // Esc cancels, and a blank command is ignored.
    command(&mut app, 'e');
    assert_eq!(app.handle_key(special(KeyCode::Esc)), Command::Nothing);
    command(&mut app, 'e');
    for _ in 0..9 {
        app.handle_key(special(KeyCode::Backspace));
    }
    app.handle_key(key(' '));
    assert_eq!(app.handle_key(special(KeyCode::Enter)), Command::Nothing);
    assert_eq!(window(&app).panes[0].shell, "/bin/bash");
}

#[test]
fn layouts_stay_exact_through_splits_and_closes() {
    fn leaves(node: &PaneNode, out: &mut Vec<usize>) {
        match node {
            PaneNode::Leaf(i) => out.push(*i),
            PaneNode::Split { first, second, .. } => {
                leaves(first, out);
                leaves(second, out);
            }
        }
    }
    let mut app = one_project();
    split(&mut app, SplitDirection::Vertical);
    split(&mut app, SplitDirection::Horizontal);
    app.handle_key(prefix());
    app.handle_key(key('o'));
    split(&mut app, SplitDirection::Horizontal);
    command(&mut app, 'x');
    command(&mut app, 'x');
    let w = window(&app);
    let mut l = Vec::new();
    leaves(&w.layout, &mut l);
    l.sort();
    assert_eq!(l, (0..w.panes.len()).collect::<Vec<_>>());
}
