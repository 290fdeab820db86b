use kandume::app::{name_or_default, project_name};
use kandume::pane_tree::SplitDirection;
use kandume::session::{
    into_current, migrate_legacy_session, migrate_project_sessions, LegacySessionState,
    ProjectSessionsProject, ProjectSessionsState, SessionState, SessionTab, StoredSessionState,
};

fn tab(name: &str, cwd: &str) -> SessionTab {
    SessionTab { name: name.to_string(), cwd: cwd.to_string(), shell: "/bin/sh".to_string() }
}

#[test]
fn project_sessions_become_one_window_each() {
    let state = ProjectSessionsState {
        active_project: 1,
        projects: vec![
            ProjectSessionsProject {
                name: "a".to_string(),
                cwd: "/a".to_string(),
                active_session: 1,
                sessions: vec![tab("one", "/a"), tab("two", "/a/b")],
            },
            ProjectSessionsProject {
                name: "b".to_string(),
                cwd: "/b".to_string(),
                active_session: 0,
                sessions: vec![],
            },
        ],
    };
    let migrated = migrate_project_sessions(state);
    assert_eq!(migrated.active_project, 1);
    assert_eq!(migrated.projects.len(), 2);
    let a = &migrated.projects[0];
    assert_eq!(a.name, "a");
    assert_eq!(a.cwd, "/a");
    assert_eq!(a.active_window, 0);
    assert_eq!(a.windows.len(), 1);
    assert_eq!(a.windows[0].name, "window 1");
    assert_eq!(a.windows[0].active_pane, 1);
    assert_eq!(a.windows[0].split_direction, SplitDirection::Vertical);
    assert!(a.windows[0].layout.is_none());
    assert_eq!(a.windows[0].panes, vec![tab("one", "/a"), tab("two", "/a/b")]);
    assert!(migrated.projects[1].windows[0].panes.is_empty());
}

#[test]
fn legacy_tabs_become_one_project() {
    let state = LegacySessionState { active_tab: 2, tabs: vec![tab("x", "/home/me/code"), tab("y", "/tmp")] };
    let migrated = migrate_legacy_session(state);
    assert_eq!(migrated.active_project, 0);
    assert_eq!(migrated.projects.len(), 1);
    let p = &migrated.projects[0];
    assert_eq!(p.name, "code");
    assert_eq!(p.cwd, "/home/me/code");
    assert_eq!(p.windows.len(), 1);
    assert_eq!(p.windows[0].name, "window 1");
    assert_eq!(p.windows[0].active_pane, 2);
    assert_eq!(p.windows[0].panes.len(), 2);
}

#[test]
fn legacy_without_tabs_is_named_project() {
    let migrated = migrate_legacy_session(LegacySessionState { active_tab: 0, tabs: vec![] });
    assert_eq!(migrated.projects[0].name, "project");
    assert_eq!(migrated.projects[0].cwd, "");
}

#[test]
fn current_form_is_kept() {
    let state = SessionState { active_project: 3, projects: vec![] };
    let current = into_current(StoredSessionState::Current(state));
    assert_eq!(current, SessionState { active_project: 3, projects: vec![] });
    let legacy = into_current(StoredSessionState::Legacy(LegacySessionState { active_tab: 0, tabs: vec![] }));
    assert_eq!(legacy.projects.len(), 1);
}

#[test]
fn project_names() {
    assert_eq!(project_name("/home/me/work"), "work");
    assert_eq!(project_name("/home/me/work/"), "work");
    assert_eq!(project_name("relative/dir"), "dir");
    assert_eq!(project_name("/"), "project");
    assert_eq!(project_name(""), "project");
    assert_eq!(project_name("/home/.."), "project");
    assert_eq!(project_name("foo.txt/."), "foo.txt");
    assert_eq!(project_name("foo.txt/.//"), "foo.txt");
    assert_eq!(project_name("a//b//"), "b");
    assert_eq!(project_name("./a"), "a");
    assert_eq!(project_name("."), "project");
    assert_eq!(project_name("..."), "...");
    assert_eq!(name_or_default(Some("x".to_string())), "x");
    assert_eq!(name_or_default(None), "project");
}
