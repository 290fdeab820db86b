//! The saved session: what a session file holds, in its current form and
//! in the two earlier forms that are still read, and how the earlier forms
//! become the current one.
use vstd::prelude::*;
use crate::pane_tree::{SplitDirection, SplitRatio};

verus! {

/// The split tree of a saved window.
#[derive(Debug, PartialEq, Eq)]
pub enum SessionPaneLayout {
    Leaf(usize),
    Split {
        direction: SplitDirection,
        ratio: SplitRatio,
        first: Box<SessionPaneLayout>,
        second: Box<SessionPaneLayout>,
    },
}

/// A saved pane: its name, working directory and shell.
#[derive(Debug, Clone, PartialEq, Eq)]
pub struct SessionTab {
    pub name: String,
    pub cwd: String,
    pub shell: String,
}

/// A saved window.
#[derive(Debug, PartialEq, Eq)]
pub struct SessionWindow {
    pub name: String,
    pub active_pane: usize,
    pub split_direction: SplitDirection,
    pub layout: Option<SessionPaneLayout>,
    pub panes: Vec<SessionTab>,
}

/// A saved project.
#[derive(Debug, PartialEq, Eq)]
pub struct SessionProject {
    pub name: String,
    pub cwd: String,
    pub active_window: usize,
    pub windows: Vec<SessionWindow>,
}

/// A saved session in the current form.
#[derive(Debug, PartialEq, Eq)]
pub struct SessionState {
    pub active_project: usize,
    pub projects: Vec<SessionProject>,
}

/// A saved session in the form where each project held a flat list of
/// sessions (panes) and no windows.
#[derive(Debug, PartialEq, Eq)]
pub struct ProjectSessionsState {
    pub active_project: usize,
    pub projects: Vec<ProjectSessionsProject>,
}

/// A project of a `ProjectSessionsState`.
#[derive(Debug, PartialEq, Eq)]
pub struct ProjectSessionsProject {
    pub name: String,
    pub cwd: String,
    pub active_session: usize,
    pub sessions: Vec<SessionTab>,
}

/// A saved session in the first form: a single flat list of tabs.
#[derive(Debug, PartialEq, Eq)]
pub struct LegacySessionState {
    pub active_tab: usize,
    pub tabs: Vec<SessionTab>,
}

/// A session file in any of the forms that are read.
#[derive(Debug, PartialEq, Eq)]
pub enum StoredSessionState {
    Current(SessionState),
    ProjectSessions(ProjectSessionsState),
    Legacy(LegacySessionState),
}

/// The name of the single window that a migrated project gets.
pub open spec fn first_window_name() -> Seq<char> {
    seq!['w', 'i', 'n', 'd', 'o', 'w', ' ', '1']
}

/// The window that a migrated flat list of panes becomes.
pub open spec fn migrated_window(w: SessionWindow, active_pane: usize, panes: Vec<SessionTab>) -> bool {
    &&& w.name@ == first_window_name()
    &&& w.active_pane == active_pane
    &&& w.split_direction == SplitDirection::Vertical
    &&& w.layout is None
    &&& w.panes == panes
}

/// The project that a project of the sessions form becomes.
pub open spec fn migrated_project(p: SessionProject, q: ProjectSessionsProject) -> bool {
    &&& p.name == q.name
    &&& p.cwd == q.cwd
    &&& p.active_window == 0
    &&& p.windows@.len() == 1
    &&& migrated_window(p.windows@[0], q.active_session, q.sessions)
}

/// The session that the sessions form `s` becomes.
pub open spec fn migrated_from_project_sessions(r: SessionState, s: ProjectSessionsState) -> bool {
    &&& r.active_project == s.active_project
    &&& r.projects@.len() == s.projects@.len()
    &&& forall|i: int|
        0 <= i < r.projects@.len() ==> migrated_project(#[trigger] r.projects@[i], s.projects@[i])
}

/// The session that the first form `s` becomes.
pub open spec fn migrated_from_legacy(r: SessionState, s: LegacySessionState) -> bool {
    &&& r.active_project == 0
    &&& r.projects@.len() == 1
    &&& r.projects@[0].cwd@ == (if s.tabs@.len() > 0 {
        s.tabs@[0].cwd@
    } else {
        Seq::empty()
    })
    &&& r.projects@[0].name@ == crate::app::spec_project_name(r.projects@[0].cwd@)
    &&& r.projects@[0].active_window == 0
    &&& r.projects@[0].windows@.len() == 1
    &&& migrated_window(r.projects@[0].windows@[0], s.active_tab, s.tabs)
}

/// A window named "window 1" holding `panes` flat.
pub fn first_window(active_pane: usize, panes: Vec<SessionTab>) -> (w: SessionWindow)
    ensures
        migrated_window(w, active_pane, panes),
{
    let name = String::from_str("window 1");
    proof {
        reveal_strlit("window 1");
    }
    assert(name@ =~= first_window_name());
    SessionWindow {
        name,
        active_pane,
        split_direction: SplitDirection::Vertical,
        layout: None,
        panes,
    }
}

/// Each project of the sessions form becomes a project with one window,
/// "window 1", whose panes are the project's sessions, laid out flat and
/// vertically; the active session becomes the window's active pane.
pub fn migrate_project_sessions(session: ProjectSessionsState) -> (r: SessionState)
    ensures
        migrated_from_project_sessions(r, session),
{
    let ghost given = session.projects@;
    let mut rest = session.projects;
    let mut projects: Vec<SessionProject> = Vec::new();
    while rest.len() > 0
        invariant
            projects@.len() + rest@.len() == given.len(),
            rest@ == given.skip(projects@.len() as int),
            forall|i: int|
                0 <= i < projects@.len() ==> migrated_project(
                    #[trigger] projects@[i],
                    given[i],
                ),
        decreases rest@.len(),
    {
        let ghost k = projects@.len();
        let project = rest.remove(0);
        assert(project == given[k as int]);
        assert(rest@ =~= given.skip(k as int + 1));
        let mut windows = Vec::new();
        windows.push(first_window(project.active_session, project.sessions));
        projects.push(
            SessionProject { name: project.name, cwd: project.cwd, active_window: 0, windows },
        );
    }
    SessionState { active_project: session.active_project, projects }
}

/// The first form becomes a session with one project, named after the
/// last component of the first tab's working directory (or "project"),
/// working in that directory, with one window "window 1" that holds all the
/// tabs flat and vertically; the active tab becomes the active pane.
pub fn migrate_legacy_session(session: LegacySessionState) -> (r: SessionState)
    ensures
        migrated_from_legacy(r, session),
{
    let cwd = if session.tabs.len() > 0 {
        session.tabs[0].cwd.clone()
    } else {
        String::new()
    };
    let name = crate::app::project_name(cwd.as_str());
    let mut windows = Vec::new();
    windows.push(first_window(session.active_tab, session.tabs));
    let mut projects = Vec::new();
    projects.push(SessionProject { name, cwd, active_window: 0, windows });
    SessionState { active_project: 0, projects }
}

/// A session file in any form, as a session in the current form.
pub fn into_current(stored: StoredSessionState) -> (r: SessionState)
    ensures
        match stored {
            StoredSessionState::Current(s) => r == s,
            StoredSessionState::ProjectSessions(s) => migrated_from_project_sessions(r, s),
            StoredSessionState::Legacy(s) => migrated_from_legacy(r, s),
        },
{
    match stored {
        StoredSessionState::Current(session) => session,
        StoredSessionState::ProjectSessions(session) => migrate_project_sessions(session),
        StoredSessionState::Legacy(session) => migrate_legacy_session(session),
    }
}

} // verus!
