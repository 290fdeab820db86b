//! The workspace: projects, their windows and the panes of each window,
//! which of them are active, and how keys, mouse events and resizes change
//! them. Spawning shells and writing to them is left to the caller, which
//! this model tells what to do.
use vstd::prelude::*;
use crate::input::{ActionView, InputAction, InputState, KeyCode, KeyEvent, KeyModifiers};
use crate::layout::{
    spec_hit_project_row, PaneHit, Rect, RootAreas, SeparatorHit, spec_hit_separator, spec_hit_test_pane_stack,
    spec_pane_terminal_rect, spec_pointer_in, spec_root_areas, split_available,
};
use crate::mouse::{MouseButton, MouseEventKind, spec_sgr_report};
use crate::pane_tree::{PaneNode, SplitDirection, SplitRatio, WhichChild, all_below, is_index_permutation};
use crate::session::{SessionProject, SessionState, SessionWindow, SessionTab};
use crate::terminal::TerminalTab;

verus! {

/// A final path component as a file name: `None` for an empty component,
/// `.` (the current directory) and `..` (the parent directory).
pub open spec fn component_file_name(c: Seq<char>) -> Option<Seq<char>> {
    if c.len() == 0 || c == seq!['.'] || c == seq!['.', '.'] {
        None
    } else {
        Some(c)
    }
}

/// The file name of `path` read from right to left, `acc` holding the
/// characters of the component read so far: empty components (repeated or
/// trailing separators) and `.` components are skipped, as
/// `Path::components` normalizes them away.
pub open spec fn file_name_scan(path: Seq<char>, acc: Seq<char>) -> Option<Seq<char>>
    decreases path.len(),
{
    if path.len() == 0 {
        component_file_name(acc)
    } else if path.last() == '/' {
        if acc.len() == 0 || acc == seq!['.'] {
            file_name_scan(path.drop_last(), Seq::empty())
        } else {
            component_file_name(acc)
        }
    } else {
        file_name_scan(path.drop_last(), seq![path.last()] + acc)
    }
}

/// The last component of the Unix path `path`, as
/// `std::path::Path::file_name` gives it: `None` for an empty path, the
/// root, or a path that ends in `..` (or is `.`).
pub open spec fn path_file_name(path: Seq<char>) -> Option<Seq<char>> {
    file_name_scan(path, Seq::empty())
}

/// Calls `std::path::Path::file_name` on `path`. Trusted: as std documents
/// it and `Path::components`, the result is the last component unless that
/// is `..`, with repeated separators, a trailing separator and `.`
/// components normalized away (see `path_file_name`); the component of a
/// path given as text is always text, so the conversion back to a string
/// never fails.
#[verifier::external_body]
fn file_name_of(path: &str) -> (r: Option<String>)
    ensures
        match path_file_name(path@) {
            Some(n) => r matches Some(s) && s@ == n,
            None => r is None,
        },
{
    std::path::Path::new(path).file_name().and_then(|n| n.to_str()).map(|n| n.to_string())
}

/// The name of a project that works in `cwd`: the last component of the
/// path, or "project" when it has none.
pub open spec fn spec_project_name(cwd: Seq<char>) -> Seq<char> {
    match path_file_name(cwd) {
        Some(n) => n,
        None => seq!['p', 'r', 'o', 'j', 'e', 'c', 't'],
    }
}

/// The project name for a path whose last component is `file_name`:
/// that component, or "project" when there is none.
pub fn name_or_default(file_name: Option<String>) -> (r: String)
    ensures
        match file_name {
            Some(n) => r@ == n@,
            None => r@ == seq!['p', 'r', 'o', 'j', 'e', 'c', 't'],
        },
{
    match file_name {
        Some(n) => n,
        None => {
            let s = String::from_str("project");
            proof {
                reveal_strlit("project");
            }
            assert(s@ =~= seq!['p', 'r', 'o', 'j', 'e', 'c', 't']);
            s
        },
    }
}

/// The name of a project that works in `cwd`.
pub fn project_name(cwd: &str) -> (r: String)
    ensures
        r@ == spec_project_name(cwd@),
{
    name_or_default(file_name_of(cwd))
}

} // verus!

verus! {

/// The rename in progress, with the text typed so far.
#[derive(Debug, PartialEq, Eq)]
pub enum RenameState {
    Idle,
    Project { buffer: String },
    Window { buffer: String },
    Pane { buffer: String },
    /// The shell command of the active pane being edited.
    Shell { buffer: String },
    /// Deleting the active project, waiting for confirmation.
    ConfirmDelete,
}

/// A project: a working directory and its windows.
#[derive(Debug)]
pub struct Project {
    pub name: String,
    pub cwd: String,
    pub windows: Vec<WindowPage>,
    pub active_window: usize,
}

/// A window: panes laid out by a split tree.
#[derive(Debug)]
pub struct WindowPage {
    pub name: String,
    pub panes: Vec<TerminalTab>,
    pub active_pane: usize,
    pub layout: PaneNode,
}

/// A separator being dragged: the path to its split, the split's direction
/// and the area the split covers.
#[derive(Debug)]
pub struct SeparatorDrag {
    pub path: Vec<WhichChild>,
    pub direction: SplitDirection,
    pub area: Rect,
}

/// A mouse event at a screen cell.
#[derive(Debug, Clone, Copy, PartialEq, Eq)]
pub struct MouseEvent {
    pub kind: MouseEventKind,
    pub column: u16,
    pub row: u16,
    pub modifiers: KeyModifiers,
}

/// Bytes to write to the PTY of the pane `pane_id`.
#[derive(Debug, PartialEq, Eq)]
pub struct PaneWrite {
    pub pane_id: u64,
    pub bytes: Vec<u8>,
}

/// The work that a key leaves to the caller, which owns the PTYs, the
/// session file and the home directory.
#[derive(Debug, PartialEq, Eq)]
pub enum Command {
    /// Nothing left to do.
    Nothing,
    /// Write bytes to a pane.
    Write(PaneWrite),
    /// Open a project in the home directory (see `add_project`).
    NewProject,
    /// Open a window in the active project (see `new_window_request`).
    NewWindow,
    /// Split the active pane (see `split_request`).
    Split(SplitDirection),
    /// The last pane of the project's last window was closed: the project
    /// starts afresh in the home directory (see `replace_with_fresh_project`).
    FreshProject,
    /// Save the session (see `session_state`).
    SaveSession,
    /// The pane with this id has a new shell command: stop its program and
    /// start the new one.
    Restart(u64),
}

impl WindowPage {
    /// At least one pane, a valid active pane, and a layout whose leaves all
    /// name panes.
    pub open spec fn wf(&self) -> bool {
        &&& self.panes@.len() > 0
        &&& self.active_pane < self.panes@.len()
        &&& all_below(self.layout.leaves(), self.panes@.len())
    }
}

impl Project {
    /// At least one window, a valid active window, and well-formed windows.
    pub open spec fn wf(&self) -> bool {
        &&& self.windows@.len() > 0
        &&& self.active_window < self.windows@.len()
        &&& forall|i: int| 0 <= i < self.windows@.len() ==> (#[trigger] self.windows@[i]).wf()
    }
}

/// The state of the whole workspace.
#[derive(Debug)]
pub struct App {
    pub projects: Vec<Project>,
    pub active_project: usize,
    pub prefix_active: bool,
    pub show_help: bool,
    pub rename_state: RenameState,
    /// Path to the separator under the pointer, if any.
    pub hover_separator: Option<Vec<WhichChild>>,
    /// The separator being dragged, if any.
    pub separator_drag: Option<SeparatorDrag>,
    pub input: InputState,
    pub next_tab_id: u64,
    pub terminal_cols: u16,
    pub terminal_rows: u16,
    pub screen_cols: u16,
    pub screen_rows: u16,
    /// The pane that receives drags and the release after a press in it.
    pub mouse_grab_pane: Option<usize>,
    pub should_quit: bool,
}

/// The columns left for panes on a screen `cols` wide: all but the sidebar,
/// at least one.
pub open spec fn spec_terminal_cols(cols: u16) -> u16 {
    let c = cols.saturating_sub(crate::layout::SIDEBAR_WIDTH);
    if c < 1 { 1 } else { c }
}

/// The rows left for panes on a screen `rows` high: all but the status
/// line, the window bar and a pane title, at least one.
pub open spec fn spec_terminal_rows(rows: u16) -> u16 {
    let r = rows.saturating_sub(3);
    if r < 1 { 1 } else { r }
}

/// `a` and `b` agree on everything but the projects and the active project.
pub open spec fn same_settings(a: App, b: App) -> bool {
    &&& a.prefix_active == b.prefix_active
    &&& a.show_help == b.show_help
    &&& a.rename_state == b.rename_state
    &&& a.hover_separator == b.hover_separator
    &&& a.separator_drag == b.separator_drag
    &&& a.input == b.input
    &&& a.next_tab_id == b.next_tab_id
    &&& a.terminal_cols == b.terminal_cols
    &&& a.terminal_rows == b.terminal_rows
    &&& a.screen_cols == b.screen_cols
    &&& a.screen_rows == b.screen_rows
    &&& a.mouse_grab_pane == b.mouse_grab_pane
    &&& a.should_quit == b.should_quit
}

/// The next index in a ring of `len`.
pub open spec fn ring_next(i: usize, len: nat) -> usize {
    if len == 0 { i } else { ((i + 1) % (len as int)) as usize }
}

/// The previous index in a ring of `len`.
pub open spec fn ring_previous(i: usize, len: nat) -> usize {
    if len == 0 { i } else if i == 0 { (len - 1) as usize } else { (i - 1) as usize }
}

/// `q` is `p` with another active window.
pub open spec fn project_with_active_window(p: Project, q: Project, w: usize) -> bool {
    &&& q.name == p.name
    &&& q.cwd == p.cwd
    &&& q.windows == p.windows
    &&& q.active_window == w
}

/// `v` is `w` with another active pane.
pub open spec fn window_with_active_pane(w: WindowPage, v: WindowPage, pane: usize) -> bool {
    &&& v.name == w.name
    &&& v.panes == w.panes
    &&& v.layout == w.layout
    &&& v.active_pane == pane
}

impl App {
    /// An empty workspace for a screen of `cols` by `rows` cells.
    pub fn new(cols: u16, rows: u16) -> (r: App)
        ensures
            r.wf(),
            r.projects@.len() == 0,
            r.active_project == 0,
            r.terminal_cols == spec_terminal_cols(cols),
            r.terminal_rows == spec_terminal_rows(rows),
            r.screen_cols == cols,
            r.screen_rows == rows,
            r.next_tab_id == 1,
            !r.prefix_active && !r.show_help && !r.should_quit,
            r.rename_state == RenameState::Idle,
            r.hover_separator is None,
            r.separator_drag is None,
            r.mouse_grab_pane is None,
            !r.input.prefix,
    {
        let c = cols.saturating_sub(crate::layout::SIDEBAR_WIDTH);
        let r = rows.saturating_sub(3);
        App {
            projects: Vec::new(),
            active_project: 0,
            prefix_active: false,
            show_help: false,
            rename_state: RenameState::Idle,
            hover_separator: None,
            separator_drag: None,
            input: InputState::new(),
            next_tab_id: 1,
            terminal_cols: if c < 1 { 1 } else { c },
            terminal_rows: if r < 1 { 1 } else { r },
            screen_cols: cols,
            screen_rows: rows,
            mouse_grab_pane: None,
            should_quit: false,
        }
    }

    /// A valid active project (when there are projects), well-formed
    /// projects, and a dragged separator only on a split with cells to share.
    pub open spec fn wf(&self) -> bool {
        &&& self.projects@.len() > 0 ==> self.active_project < self.projects@.len()
        &&& self.projects@.len() == 0 ==> self.active_project == 0
        &&& forall|i: int| 0 <= i < self.projects@.len() ==> (#[trigger] self.projects@[i]).wf()
        &&& self.separator_drag matches Some(d) ==> split_available(d.direction, d.area) >= 2
    }

    /// The active project, if there is one.
    pub open spec fn spec_active_project(&self) -> Option<Project> {
        if self.active_project < self.projects@.len() {
            Some(self.projects@[self.active_project as int])
        } else {
            None
        }
    }

    /// The active window of the active project, if there is one.
    pub open spec fn spec_active_window(&self) -> Option<WindowPage> {
        match self.spec_active_project() {
            Some(p) => if p.active_window < p.windows@.len() {
                Some(p.windows@[p.active_window as int])
            } else {
                None
            },
            None => None,
        }
    }

    /// The active pane of the active window, if there is one.
    pub open spec fn spec_active_terminal(&self) -> Option<TerminalTab> {
        match self.spec_active_window() {
            Some(w) => if w.active_pane < w.panes@.len() {
                Some(w.panes@[w.active_pane as int])
            } else {
                None
            },
            None => None,
        }
    }

    /// The active project.
    pub fn active_project(&self) -> (r: Option<&Project>)
        ensures
            match self.spec_active_project() {
                Some(p) => r matches Some(q) && *q == p,
                None => r is None,
            },
    {
        if self.active_project < self.projects.len() {
            Some(&self.projects[self.active_project])
        } else {
            None
        }
    }

    /// The active window of the active project.
    pub fn active_window(&self) -> (r: Option<&WindowPage>)
        ensures
            match self.spec_active_window() {
                Some(w) => r matches Some(q) && *q == w,
                None => r is None,
            },
    {
        match self.active_project() {
            Some(project) => if project.active_window < project.windows.len() {
                Some(&project.windows[project.active_window])
            } else {
                None
            },
            None => None,
        }
    }

    /// The active pane of the active window.
    pub fn active_terminal(&self) -> (r: Option<&TerminalTab>)
        ensures
            match self.spec_active_terminal() {
                Some(t) => r matches Some(q) && *q == t,
                None => r is None,
            },
    {
        match self.active_window() {
            Some(window) => if window.active_pane < window.panes.len() {
                Some(&window.panes[window.active_pane])
            } else {
                None
            },
            None => None,
        }
    }

    /// The separator to highlight: the dragged one, else the hovered one.
    pub fn separator_highlight(&self) -> (r: Option<&Vec<WhichChild>>)
        ensures
            match self.separator_drag {
                Some(d) => r == Some(&d.path),
                None => match self.hover_separator {
                    Some(p) => r == Some(&p),
                    None => r is None,
                },
            },
    {
        match &self.separator_drag {
            Some(d) => Some(&d.path),
            None => match &self.hover_separator {
                Some(p) => Some(p),
                None => None,
            },
        }
    }

    /// A fresh pane id.
    pub fn allocate_tab_id(&mut self) -> (r: u64)
        requires
            old(self).next_tab_id < u64::MAX,
        ensures
            r == old(self).next_tab_id,
            final(self).next_tab_id == old(self).next_tab_id + 1,
            final(self).projects == old(self).projects,
            final(self).active_project == old(self).active_project,
    {
        let id = self.next_tab_id;
        self.next_tab_id = self.next_tab_id + 1;
        id
    }

    /// Makes the next project active, wrapping around.
    pub fn next_project(&mut self)
        requires
            old(self).wf(),
        ensures
            final(self).wf(),
            final(self).active_project == ring_next(old(self).active_project, old(self).projects@.len()),
            final(self).projects == old(self).projects,
            same_settings(*old(self), *final(self)),
    {
        if self.projects.len() > 0 {
            self.active_project = (self.active_project + 1) % self.projects.len();
        }
    }

    /// Makes the previous project active, wrapping around.
    pub fn previous_project(&mut self)
        requires
            old(self).wf(),
        ensures
            final(self).wf(),
            final(self).active_project == ring_previous(
                old(self).active_project,
                old(self).projects@.len(),
            ),
            final(self).projects == old(self).projects,
            same_settings(*old(self), *final(self)),
    {
        if self.projects.len() > 0 {
            self.active_project = if self.active_project == 0 {
                self.projects.len() - 1
            } else {
                self.active_project - 1
            };
        }
    }

    /// Makes the project `index` active, if there is one.
    pub fn select_project(&mut self, index: usize)
        requires
            old(self).wf(),
        ensures
            final(self).wf(),
            final(self).active_project == (if index < old(self).projects@.len() {
                index
            } else {
                old(self).active_project
            }),
            final(self).projects == old(self).projects,
            same_settings(*old(self), *final(self)),
    {
        if index < self.projects.len() {
            self.active_project = index;
        }
    }

    /// Makes the next window of the active project active, wrapping around.
    pub fn next_window(&mut self)
        requires
            old(self).wf(),
        ensures
            final(self).wf(),
            active_window_moved(*old(self), *final(self), true),
    {
        let ap = self.active_project;
        if ap < self.projects.len() {
            let project = &mut self.projects[ap];
            if project.windows.len() > 0 {
                project.active_window = (project.active_window + 1) % project.windows.len();
            }
            assert(self.projects@ =~= old(self).projects@.update(ap as int, self.projects@[ap as int]));
        }
    }

    /// Makes the previous window of the active project active, wrapping around.
    pub fn previous_window(&mut self)
        requires
            old(self).wf(),
        ensures
            final(self).wf(),
            active_window_moved(*old(self), *final(self), false),
    {
        let ap = self.active_project;
        if ap < self.projects.len() {
            let project = &mut self.projects[ap];
            if project.windows.len() > 0 {
                project.active_window = if project.active_window == 0 {
                    project.windows.len() - 1
                } else {
                    project.active_window - 1
                };
            }
            assert(self.projects@ =~= old(self).projects@.update(ap as int, self.projects@[ap as int]));
        }
    }
}


/// `b`'s projects are `a`'s except the active window of the active
/// project, which `rel` relates to its old self; when there is no active
/// window nothing changes.
pub open spec fn only_active_window_changes(
    a: App,
    b: App,
    rel: spec_fn(WindowPage, WindowPage) -> bool,
) -> bool {
    match a.spec_active_window() {
        Some(w) => {
            let ap = a.active_project as int;
            let p = a.projects@[ap];
            let aw = p.active_window as int;
            let q = b.projects@[ap];
            &&& b.projects@ == a.projects@.update(ap, q)
            &&& q.name == p.name
            &&& q.cwd == p.cwd
            &&& q.active_window == p.active_window
            &&& q.windows@ == p.windows@.update(aw, q.windows@[aw])
            &&& rel(w, q.windows@[aw])
        },
        None => b.projects == a.projects,
    }
}

/// The rename buffer after `key`: Backspace removes the last character, a
/// character is appended, any other key leaves the text as it is.
pub open spec fn spec_edit_buffer(key: KeyEvent, buffer: Seq<char>) -> Seq<char> {
    match key.code {
        KeyCode::Backspace => if buffer.len() == 0 { buffer } else { buffer.drop_last() },
        KeyCode::Char(ch) => buffer.push(ch),
        _ => buffer,
    }
}

/// Applies `key` to a rename buffer (see `spec_edit_buffer`); every key is
/// taken by the rename, so the result is always `true`.
pub fn apply_rename_key(key: KeyEvent, buffer: &mut String) -> (r: bool)
    ensures
        r,
        final(buffer)@ == spec_edit_buffer(key, old(buffer)@),
{
    match key.code {
        KeyCode::Enter => {},
        KeyCode::Esc => {},
        KeyCode::Backspace => {
            crate::text::pop(buffer);
            return true;
        },
        KeyCode::Char(ch) => {
            crate::text::push(buffer, ch);
            return true;
        },
        _ => {
            return true;
        },
    }
    true
}

/// The text of a rename in progress.
pub open spec fn rename_buffer(r: RenameState) -> Seq<char> {
    match r {
        RenameState::Idle => Seq::empty(),
        RenameState::Project { buffer } => buffer@,
        RenameState::Window { buffer } => buffer@,
        RenameState::Pane { buffer } => buffer@,
        RenameState::Shell { buffer } => buffer@,
        RenameState::ConfirmDelete => Seq::empty(),
    }
}

/// `r` is the rename `old` with its text edited by `key`.
pub open spec fn rename_edited(old: RenameState, r: RenameState, key: KeyEvent) -> bool {
    match old {
        RenameState::Idle => r == RenameState::Idle,
        RenameState::Project { buffer } => r matches RenameState::Project { buffer: b }
            && b@ == spec_edit_buffer(key, buffer@),
        RenameState::Window { buffer } => r matches RenameState::Window { buffer: b }
            && b@ == spec_edit_buffer(key, buffer@),
        RenameState::Pane { buffer } => r matches RenameState::Pane { buffer: b }
            && b@ == spec_edit_buffer(key, buffer@),
        RenameState::Shell { buffer } => r matches RenameState::Shell { buffer: b }
            && b@ == spec_edit_buffer(key, buffer@),
        RenameState::ConfirmDelete => r == RenameState::ConfirmDelete,
    }
}

/// `b` is `a` after confirming the rename `rename`: the active project,
/// window or pane takes the trimmed text as its name unless the trimmed
/// text is empty; nothing else changes.
pub open spec fn renamed(a: App, b: App, rename: RenameState) -> bool {
    let name = crate::text::trimmed(rename_buffer(rename));
    &&& b.active_project == a.active_project
    &&& match rename {
        RenameState::Idle => b.projects == a.projects,
        RenameState::Project { .. } => if name.len() > 0 && a.spec_active_project() is Some {
            let ap = a.active_project as int;
            let p = a.projects@[ap];
            let q = b.projects@[ap];
            &&& b.projects@ == a.projects@.update(ap, q)
            &&& q.name@ == name
            &&& q.cwd == p.cwd
            &&& q.windows == p.windows
            &&& q.active_window == p.active_window
        } else {
            b.projects == a.projects
        },
        RenameState::Window { .. } => if name.len() > 0 {
            only_active_window_changes(
                a,
                b,
                |w: WindowPage, v: WindowPage|
                    v.name@ == name && v.panes == w.panes && v.active_pane == w.active_pane
                        && v.layout == w.layout,
            )
        } else {
            b.projects == a.projects
        },
        RenameState::Pane { .. } => if name.len() > 0 {
            only_active_window_changes(
                a,
                b,
                |w: WindowPage, v: WindowPage|
                    {
                        let t = w.panes@[w.active_pane as int];
                        let u = v.panes@[w.active_pane as int];
                        &&& v.name == w.name
                        &&& v.active_pane == w.active_pane
                        &&& v.layout == w.layout
                        &&& v.panes@ == w.panes@.update(w.active_pane as int, u)
                        &&& u.name@ == name
                        &&& u.id == t.id
                        &&& u.cwd == t.cwd
                        &&& u.shell == t.shell
                        &&& u.cols == t.cols
                        &&& u.rows == t.rows
                        &&& u.mouse_reporting == t.mouse_reporting
                    },
            )
        } else {
            b.projects == a.projects
        },
        RenameState::Shell { .. } => if name.len() > 0 {
            only_active_window_changes(
                a,
                b,
                |w: WindowPage, v: WindowPage|
                    {
                        let t = w.panes@[w.active_pane as int];
                        let u = v.panes@[w.active_pane as int];
                        &&& v.name == w.name
                        &&& v.active_pane == w.active_pane
                        &&& v.layout == w.layout
                        &&& v.panes@ == w.panes@.update(w.active_pane as int, u)
                        &&& u.shell@ == name
                        &&& u.id == t.id
                        &&& u.name == t.name
                        &&& u.cwd == t.cwd
                        &&& u.cols == t.cols
                        &&& u.rows == t.rows
                        &&& !u.mouse_reporting
                    },
            )
        } else {
            b.projects == a.projects
        },
        RenameState::ConfirmDelete => b.projects == a.projects,
    }
}

impl App {
    /// Makes the pane `pane` of the active window active.
    pub fn set_active_pane(&mut self, pane: usize)
        requires
            old(self).wf(),
            old(self).spec_active_window() matches Some(w) ==> pane < w.panes@.len(),
        ensures
            final(self).wf(),
            final(self).active_project == old(self).active_project,
            same_settings(*old(self), *final(self)),
            only_active_window_changes(
                *old(self),
                *final(self),
                |w: WindowPage, v: WindowPage| window_with_active_pane(w, v, pane),
            ),
    {
        let ap = self.active_project;
        if ap < self.projects.len() {
            let project = &mut self.projects[ap];
            let aw = project.active_window;
            if aw < project.windows.len() {
                let window = &mut project.windows[aw];
                window.active_pane = pane;
                assert(project.windows@ =~= old(self).projects@[ap as int].windows@.update(
                    aw as int,
                    project.windows@[aw as int],
                ));
            }
            assert(self.projects@ =~= old(self).projects@.update(ap as int, self.projects@[ap as int]));
        }
    }

    /// Makes the next pane of the active window active, wrapping around.
    pub fn next_pane(&mut self)
        requires
            old(self).wf(),
        ensures
            final(self).wf(),
            active_pane_moved(*old(self), *final(self), true),
    {
        let next = match self.active_window() {
            Some(window) => if window.panes.len() > 0 {
                (window.active_pane + 1) % window.panes.len()
            } else {
                window.active_pane
            },
            None => 0,
        };
        self.set_active_pane(next);
    }

    /// Makes the previous pane of the active window active, wrapping around.
    pub fn previous_pane(&mut self)
        requires
            old(self).wf(),
        ensures
            final(self).wf(),
            active_pane_moved(*old(self), *final(self), false),
    {
        let previous = match self.active_window() {
            Some(window) => if window.panes.len() == 0 {
                window.active_pane
            } else if window.active_pane == 0 {
                window.panes.len() - 1
            } else {
                window.active_pane - 1
            },
            None => 0,
        };
        self.set_active_pane(previous);
    }

    /// Starts renaming the active project, its current name as the text.
    pub fn start_project_rename(&mut self)
        requires
            old(self).wf(),
        ensures
            final(self).wf(),
            same_settings_except_rename(*old(self), *final(self)),
            final(self).rename_state matches RenameState::Project { buffer } && buffer@ == (
            match old(self).spec_active_project() {
                Some(p) => p.name@,
                None => Seq::empty(),
            }),
            final(self).projects == old(self).projects,
            final(self).active_project == old(self).active_project,
    {
        let buffer = match self.active_project() {
            Some(project) => project.name.clone(),
            None => String::new(),
        };
        self.rename_state = RenameState::Project { buffer };
    }

    /// Starts renaming the active window, its current name as the text.
    pub fn start_window_rename(&mut self)
        requires
            old(self).wf(),
        ensures
            final(self).wf(),
            same_settings_except_rename(*old(self), *final(self)),
            final(self).rename_state matches RenameState::Window { buffer } && buffer@ == (
            match old(self).spec_active_window() {
                Some(w) => w.name@,
                None => Seq::empty(),
            }),
            final(self).projects == old(self).projects,
            final(self).active_project == old(self).active_project,
    {
        let buffer = match self.active_window() {
            Some(window) => window.name.clone(),
            None => String::new(),
        };
        self.rename_state = RenameState::Window { buffer };
    }

    /// Starts renaming the active pane, its current name as the text.
    pub fn start_pane_rename(&mut self)
        requires
            old(self).wf(),
        ensures
            final(self).wf(),
            same_settings_except_rename(*old(self), *final(self)),
            final(self).rename_state matches RenameState::Pane { buffer } && buffer@ == (
            match old(self).spec_active_terminal() {
                Some(t) => t.name@,
                None => Seq::empty(),
            }),
            final(self).projects == old(self).projects,
            final(self).active_project == old(self).active_project,
    {
        let buffer = match self.active_terminal() {
            Some(pane) => pane.name.clone(),
            None => String::new(),
        };
        self.rename_state = RenameState::Pane { buffer };
    }
}

/// `a` and `b` agree on everything but the projects, the active project
/// and the rename state.
pub open spec fn same_settings_except_rename(a: App, b: App) -> bool {
    &&& a.prefix_active == b.prefix_active
    &&& a.show_help == b.show_help
    &&& a.hover_separator == b.hover_separator
    &&& a.separator_drag == b.separator_drag
    &&& a.input == b.input
    &&& a.next_tab_id == b.next_tab_id
    &&& a.terminal_cols == b.terminal_cols
    &&& a.terminal_rows == b.terminal_rows
    &&& a.screen_cols == b.screen_cols
    &&& a.screen_rows == b.screen_rows
    &&& a.mouse_grab_pane == b.mouse_grab_pane
    &&& a.should_quit == b.should_quit
}

/// Whether `key` ends a rename: Enter confirms it, Esc cancels it.
pub open spec fn closes_rename(key: KeyEvent) -> bool {
    key.code == KeyCode::Enter || key.code == KeyCode::Esc
}

impl App {
    /// Confirms the rename in progress (see `renamed`); the rename state
    /// itself is left as it is.
    pub fn apply_rename(&mut self)
        requires
            old(self).wf(),
        ensures
            final(self).wf(),
            renamed(*old(self), *final(self), old(self).rename_state),
            same_settings(*old(self), *final(self)),
    {
        let (kind, name) = match &self.rename_state {
            RenameState::Idle => {
                return ;
            },
            RenameState::Project { buffer } => (0u8, crate::text::trim(buffer.as_str())),
            RenameState::Window { buffer } => (1u8, crate::text::trim(buffer.as_str())),
            RenameState::Pane { buffer } => (2u8, crate::text::trim(buffer.as_str())),
            RenameState::Shell { buffer } => (3u8, crate::text::trim(buffer.as_str())),
            RenameState::ConfirmDelete => {
                return ;
            },
        };
        if name.as_str().unicode_len() == 0 {
            return ;
        }
        let ap = self.active_project;
        if ap >= self.projects.len() {
            return ;
        }
        let project = &mut self.projects[ap];
        if kind == 0 {
            project.name = name;
        } else {
            let aw = project.active_window;
            if aw < project.windows.len() {
                let window = &mut project.windows[aw];
                if kind == 1 {
                    window.name = name;
                } else {
                    let pi = window.active_pane;
                    if pi < window.panes.len() {
                        let pane = &mut window.panes[pi];
                        if kind == 2 {
                            pane.name = name;
                        } else {
                            pane.shell = name;
                            pane.mouse_reporting = false;
                        }
                        assert(window.panes@ =~= old(self).projects@[ap as int].windows@[aw as int].panes@.update(
                            pi as int,
                            window.panes@[pi as int],
                        ));
                    }
                }
                assert(project.windows@ =~= old(self).projects@[ap as int].windows@.update(
                    aw as int,
                    project.windows@[aw as int],
                ));
            }
        }
        assert(self.projects@ =~= old(self).projects@.update(ap as int, self.projects@[ap as int]));
    }

    /// Gives `key` to the rename in progress, if there is one: the text is
    /// edited (see `spec_edit_buffer`), Enter confirms the rename (see
    /// `renamed`), and Enter or Esc ends it. Returns whether a rename took
    /// the key.
    pub fn handle_rename_key(&mut self, key: KeyEvent) -> (r: bool)
        requires
            old(self).wf(),
        ensures
            final(self).wf(),
            r == !(old(self).rename_state is Idle),
            rename_key_handled(*old(self), *final(self), key),
    {
        let is_enter = match key.code {
            KeyCode::Enter => true,
            _ => false,
        };
        let should_close = match key.code {
            KeyCode::Enter | KeyCode::Esc => true,
            _ => false,
        };
        let handled = match &mut self.rename_state {
            RenameState::Idle => false,
            RenameState::Project { buffer } => apply_rename_key(key, buffer),
            RenameState::Window { buffer } => apply_rename_key(key, buffer),
            RenameState::Pane { buffer } => apply_rename_key(key, buffer),
            RenameState::Shell { buffer } => apply_rename_key(key, buffer),
            RenameState::ConfirmDelete => true,
        };
        if is_enter {
            assert(rename_buffer(self.rename_state) == rename_buffer(old(self).rename_state));
            self.apply_rename();
        }
        if should_close {
            self.rename_state = RenameState::Idle;
        }
        handled
    }
}

/// The size given to the pane `index` by a list of pane sizes: the first
/// entry for that pane, else `default`.
pub open spec fn size_for(sizes: Seq<(usize, u16, u16)>, index: usize, default: (u16, u16)) -> (
    u16,
    u16,
)
    decreases sizes.len(),
{
    if sizes.len() == 0 {
        default
    } else if sizes[0].0 == index {
        (sizes[0].1, sizes[0].2)
    } else {
        size_for(sizes.drop_first(), index, default)
    }
}

/// The size that a list of pane sizes gives a pane, when the list is two
/// lists one after the other: the first list's, when it has an entry for
/// the pane, else the second list's.
pub proof fn lemma_size_for_concat(
    s1: Seq<(usize, u16, u16)>,
    s2: Seq<(usize, u16, u16)>,
    index: usize,
    default: (u16, u16),
)
    ensures
        (exists|k: int| 0 <= k < s1.len() && #[trigger] s1[k].0 == index) ==> size_for(
            s1 + s2,
            index,
            default,
        ) == size_for(s1, index, default),
        (forall|k: int| 0 <= k < s1.len() ==> #[trigger] s1[k].0 != index) ==> size_for(
            s1 + s2,
            index,
            default,
        ) == size_for(s2, index, default),
    decreases s1.len(),
{
    if s1.len() == 0 {
        assert(s1 + s2 =~= s2);
    } else {
        assert((s1 + s2)[0] == s1[0]);
        assert((s1 + s2).drop_first() =~= s1.drop_first() + s2);
        lemma_size_for_concat(s1.drop_first(), s2, index, default);
        if s1[0].0 != index {
            if exists|k: int| 0 <= k < s1.len() && #[trigger] s1[k].0 == index {
                let k = choose|k: int| 0 <= k < s1.len() && #[trigger] s1[k].0 == index;
                assert(s1.drop_first()[k - 1].0 == index);
            }
            if forall|k: int| 0 <= k < s1.len() ==> #[trigger] s1[k].0 != index {
                assert forall|k: int| 0 <= k < s1.drop_first().len() implies #[trigger] s1.drop_first()[k].0
                    != index by {
                    assert(s1.drop_first()[k] == s1[k + 1]);
                }
            }
        }
    }
}

/// `u` is the terminal `t` at another size.
pub open spec fn tab_resized(t: TerminalTab, u: TerminalTab, cols: u16, rows: u16) -> bool {
    &&& u.id == t.id
    &&& u.name == t.name
    &&& u.cwd == t.cwd
    &&& u.shell == t.shell
    &&& u.mouse_reporting == t.mouse_reporting
    &&& u.cols == cols
    &&& u.rows == rows
}

/// `v` is `w` with each pane at the size its layout gives it in `cols` by
/// `rows` cells (a pane the layout does not show gets the whole area).
pub open spec fn window_resized(w: WindowPage, v: WindowPage, cols: u16, rows: u16) -> bool {
    &&& v.name == w.name
    &&& v.active_pane == w.active_pane
    &&& v.layout == w.layout
    &&& v.panes@.len() == w.panes@.len()
    &&& forall|i: int|
        0 <= i < w.panes@.len() ==> {
            let size = size_for(w.layout.spec_pane_sizes(cols, rows), i as usize, (cols, rows));
            tab_resized(w.panes@[i], #[trigger] v.panes@[i], size.0, size.1)
        }
}

/// `q` is `p` with every window resized to `cols` by `rows` cells.
pub open spec fn project_resized(p: Project, q: Project, cols: u16, rows: u16) -> bool {
    &&& q.name == p.name
    &&& q.cwd == p.cwd
    &&& q.active_window == p.active_window
    &&& q.windows@.len() == p.windows@.len()
    &&& forall|i: int|
        0 <= i < p.windows@.len() ==> window_resized(p.windows@[i], #[trigger] q.windows@[i], cols, rows)
}

/// `b` is `a` with every window of every project resized to the terminal
/// area of `a`.
pub open spec fn all_resized(a: App, b: App) -> bool {
    &&& b.active_project == a.active_project
    &&& b.projects@.len() == a.projects@.len()
    &&& forall|i: int|
        0 <= i < a.projects@.len() ==> project_resized(
            a.projects@[i],
            #[trigger] b.projects@[i],
            a.terminal_cols,
            a.terminal_rows,
        )
}

fn size_lookup(sizes: &Vec<(usize, u16, u16)>, index: usize, default: (u16, u16)) -> (r: (u16, u16))
    ensures
        r == size_for(sizes@, index, default),
{
    let mut k: usize = 0;
    assert(sizes@.skip(0) =~= sizes@);
    while k < sizes.len()
        invariant
            k <= sizes@.len(),
            size_for(sizes@, index, default) == size_for(sizes@.skip(k as int), index, default),
        decreases sizes@.len() - k,
    {
        let entry = sizes[k];
        assert(sizes@.skip(k as int)[0] == entry);
        if entry.0 == index {
            return (entry.1, entry.2);
        }
        assert(sizes@.skip(k as int).drop_first() =~= sizes@.skip(k as int + 1));
        k = k + 1;
    }
    assert(sizes@.skip(k as int).len() == 0);
    default
}

fn resize_window(window: &mut WindowPage, cols: u16, rows: u16)
    ensures
        window_resized(*old(window), *final(window), cols, rows),
        old(window).wf() ==> final(window).wf(),
{
    let sizes = window.layout.pane_sizes(cols, rows);
    let n = window.panes.len();
    let mut i: usize = 0;
    while i < n
        invariant
            n == window.panes@.len(),
            n == old(window).panes@.len(),
            i <= n,
            sizes@ == old(window).layout.spec_pane_sizes(cols, rows),
            window.name == old(window).name,
            window.active_pane == old(window).active_pane,
            window.layout == old(window).layout,
            forall|j: int|
                0 <= j < i ==> {
                    let size = size_for(sizes@, j as usize, (cols, rows));
                    tab_resized(old(window).panes@[j], #[trigger] window.panes@[j], size.0, size.1)
                },
            forall|j: int| i <= j < n ==> #[trigger] window.panes@[j] == old(window).panes@[j],
        decreases n - i,
    {
        let (c, r) = size_lookup(&sizes, i, (cols, rows));
        let pane = &mut window.panes[i];
        pane.resize(c, r);
        i = i + 1;
    }
}

fn resize_project(project: &mut Project, cols: u16, rows: u16)
    ensures
        project_resized(*old(project), *final(project), cols, rows),
        old(project).wf() ==> final(project).wf(),
{
    let n = project.windows.len();
    let mut i: usize = 0;
    while i < n
        invariant
            n == project.windows@.len(),
            n == old(project).windows@.len(),
            i <= n,
            project.name == old(project).name,
            project.cwd == old(project).cwd,
            project.active_window == old(project).active_window,
            forall|j: int|
                0 <= j < i ==> window_resized(
                    old(project).windows@[j],
                    #[trigger] project.windows@[j],
                    cols,
                    rows,
                ),
            forall|j: int|
                0 <= j < i ==> old(project).windows@[j].wf() ==> (#[trigger] project.windows@[j]).wf(),
            forall|j: int| i <= j < n ==> #[trigger] project.windows@[j] == old(project).windows@[j],
        decreases n - i,
    {
        let window = &mut project.windows[i];
        resize_window(window, cols, rows);
        i = i + 1;
    }
}

impl App {
    /// Gives every pane of every window the size its window's layout gives
    /// it in the terminal area (see `all_resized`).
    pub fn resize_all_panes(&mut self)
        requires
            old(self).wf(),
        ensures
            final(self).wf(),
            all_resized(*old(self), *final(self)),
            same_settings(*old(self), *final(self)),
    {
        let cols = self.terminal_cols;
        let rows = self.terminal_rows;
        let n = self.projects.len();
        let mut i: usize = 0;
        while i < n
            invariant
                n == self.projects@.len(),
                n == old(self).projects@.len(),
                i <= n,
                cols == old(self).terminal_cols,
                rows == old(self).terminal_rows,
                self.active_project == old(self).active_project,
                same_settings(*old(self), *self),
                forall|j: int|
                    0 <= j < i ==> project_resized(
                        old(self).projects@[j],
                        #[trigger] self.projects@[j],
                        cols,
                        rows,
                    ),
                forall|j: int| 0 <= j < n ==> (#[trigger] self.projects@[j]).wf(),
                forall|j: int| i <= j < n ==> #[trigger] self.projects@[j] == old(self).projects@[j],
                old(self).wf(),
            decreases n - i,
        {
            let project = &mut self.projects[i];
            resize_project(project, cols, rows);
            i = i + 1;
        }
    }

    /// The screen is now `cols` by `rows` cells: the terminal area follows
    /// and every pane is resized.
    pub fn resize(&mut self, cols: u16, rows: u16)
        requires
            old(self).wf(),
        ensures
            final(self).wf(),
            final(self).screen_cols == cols,
            final(self).screen_rows == rows,
            final(self).terminal_cols == spec_terminal_cols(cols),
            final(self).terminal_rows == spec_terminal_rows(rows),
            all_resized(
                App { terminal_cols: spec_terminal_cols(cols), terminal_rows: spec_terminal_rows(rows), ..*old(self) },
                *final(self),
            ),
    {
        self.screen_cols = cols;
        self.screen_rows = rows;
        let c = cols.saturating_sub(crate::layout::SIDEBAR_WIDTH);
        self.terminal_cols = if c < 1 { 1 } else { c };
        let r = rows.saturating_sub(3);
        self.terminal_rows = if r < 1 { 1 } else { r };
        self.resize_all_panes();
    }
}

/// The layout that a saved window gets back for `pane_count` panes: its
/// saved tree, or the flat layout in its saved direction when it has none,
/// kept only when all its leaves name one of the panes.
pub open spec fn spec_restored_layout(window: SessionWindow, pane_count: nat) -> PaneNode {
    match window.layout {
        Some(l) => crate::pane_tree::spec_from_session(l),
        None => PaneNode::spec_flat(pane_count, window.split_direction),
    }.spec_sanitize(pane_count)
}

/// The smaller of `a` and `b`.
pub open spec fn min_usize(a: usize, b: usize) -> usize {
    if a < b { a } else { b }
}

/// A window restored from its saved form with the terminals spawned for
/// its panes (at least one).
pub fn restore_window(window: SessionWindow, panes: Vec<TerminalTab>) -> (r: WindowPage)
    requires
        panes@.len() > 0,
    ensures
        r.wf(),
        r.name == window.name,
        r.panes == panes,
        r.active_pane == min_usize(window.active_pane, (panes@.len() - 1) as usize),
        r.layout == spec_restored_layout(window, panes@.len()),
{
    let n = panes.len();
    let layout = match window.layout {
        Some(l) => PaneNode::from_session_layout(l),
        None => PaneNode::from_flat_panes(n, window.split_direction),
    };
    let last = n - 1;
    WindowPage {
        name: window.name,
        active_pane: if window.active_pane < last { window.active_pane } else { last },
        layout: layout.sanitize(n),
        panes,
    }
}

/// The saved form of a window.
pub open spec fn saved_window(w: WindowPage, s: SessionWindow) -> bool {
    &&& s.name == w.name
    &&& s.active_pane == w.active_pane
    &&& s.split_direction == (match w.layout.spec_first_split_direction() {
        Some(d) => d,
        None => SplitDirection::Vertical,
    })
    &&& s.layout == Some(crate::pane_tree::spec_to_session(w.layout))
    &&& s.panes@.len() == w.panes@.len()
    &&& forall|i: int|
        0 <= i < s.panes@.len() ==> {
            let t = w.panes@[i];
            let u = #[trigger] s.panes@[i];
            &&& u.name == t.name
            &&& u.cwd == t.cwd
            &&& u.shell == t.shell
        }
}

/// The saved form of a project.
pub open spec fn saved_project(p: Project, s: SessionProject) -> bool {
    &&& s.name == p.name
    &&& s.cwd == p.cwd
    &&& s.active_window == p.active_window
    &&& s.windows@.len() == p.windows@.len()
    &&& forall|i: int| 0 <= i < s.windows@.len() ==> saved_window(p.windows@[i], #[trigger] s.windows@[i])
}

/// The saved form of the workspace.
pub open spec fn saved_state(a: App, s: SessionState) -> bool {
    &&& s.active_project == a.active_project
    &&& s.projects@.len() == a.projects@.len()
    &&& forall|i: int|
        0 <= i < s.projects@.len() ==> saved_project(a.projects@[i], #[trigger] s.projects@[i])
}

impl PaneNode {
    /// The direction of the root split, if the root is a split.
    pub open spec fn spec_first_split_direction(self) -> Option<SplitDirection> {
        match self {
            PaneNode::Leaf(_) => None,
            PaneNode::Split { direction, .. } => Some(direction),
        }
    }
}

impl WindowPage {
    /// The saved form of the window: name, active pane, layout (and the
    /// direction of its root split, vertical for a single pane), and for each
    /// pane its name, directory and shell.
    pub fn session_window(&self) -> (r: SessionWindow)
        ensures
            saved_window(*self, r),
    {
        let mut panes: Vec<SessionTab> = Vec::new();
        let n = self.panes.len();
        let mut i: usize = 0;
        while i < n
            invariant
                n == self.panes@.len(),
                i <= n,
                panes@.len() == i,
                forall|j: int|
                    0 <= j < i ==> {
                        let t = self.panes@[j];
                        let u = #[trigger] panes@[j];
                        &&& u.name == t.name
                        &&& u.cwd == t.cwd
                        &&& u.shell == t.shell
                    },
            decreases n - i,
        {
            panes.push(self.panes[i].session_tab());
            i = i + 1;
        }
        SessionWindow {
            name: self.name.clone(),
            active_pane: self.active_pane,
            split_direction: match self.layout.first_split_direction() {
                Some(d) => d,
                None => SplitDirection::Vertical,
            },
            layout: Some(self.layout.session_layout()),
            panes,
        }
    }
}

impl Project {
    /// The saved form of the project and its windows.
    pub fn session_project(&self) -> (r: SessionProject)
        ensures
            saved_project(*self, r),
    {
        let mut windows: Vec<SessionWindow> = Vec::new();
        let n = self.windows.len();
        let mut i: usize = 0;
        while i < n
            invariant
                n == self.windows@.len(),
                i <= n,
                windows@.len() == i,
                forall|j: int| 0 <= j < i ==> saved_window(self.windows@[j], #[trigger] windows@[j]),
            decreases n - i,
        {
            windows.push(self.windows[i].session_window());
            i = i + 1;
        }
        SessionProject {
            name: self.name.clone(),
            cwd: self.cwd.clone(),
            active_window: self.active_window,
            windows,
        }
    }
}

/// What a saved window gives back when it is restored: its name, its
/// active pane and its layout, for a well-formed window.
pub proof fn law_window_save_restore(w: WindowPage, s: SessionWindow)
    requires
        w.wf(),
        saved_window(w, s),
    ensures
        spec_restored_layout(s, w.panes@.len()) == w.layout,
        min_usize(s.active_pane, (w.panes.len() - 1) as usize) == w.active_pane,
        s.name == w.name,
{
    crate::pane_tree::law_session_layout_round_trip(w.layout);
}

/// What a saved project gives back when it is restored: its name, its
/// directory, its active window, and every window as
/// `law_window_save_restore` says.
pub proof fn law_project_save_restore(p: Project, s: SessionProject)
    requires
        p.wf(),
        saved_project(p, s),
    ensures
        s.name == p.name,
        s.cwd == p.cwd,
        s.windows@.len() == p.windows@.len(),
        min_usize(s.active_window, (p.windows.len() - 1) as usize) == p.active_window,
        forall|i: int|
            0 <= i < p.windows@.len() ==> {
                let w = p.windows@[i];
                let t = #[trigger] s.windows@[i];
                &&& spec_restored_layout(t, w.panes@.len()) == w.layout
                &&& min_usize(t.active_pane, (w.panes.len() - 1) as usize) == w.active_pane
                &&& t.name == w.name
            },
{
    assert forall|i: int| 0 <= i < p.windows@.len() implies {
        let w = p.windows@[i];
        let t = #[trigger] s.windows@[i];
        &&& spec_restored_layout(t, w.panes@.len()) == w.layout
        &&& min_usize(t.active_pane, (w.panes.len() - 1) as usize) == w.active_pane
        &&& t.name == w.name
    } by {
        law_window_save_restore(p.windows@[i], s.windows@[i]);
    }
}

/// What a saved workspace gives back when it is restored: the active
/// project, and every project as `law_project_save_restore` says.
pub proof fn law_state_save_restore(a: App, s: SessionState)
    requires
        a.wf(),
        saved_state(a, s),
    ensures
        s.projects@.len() == a.projects@.len(),
        a.projects@.len() > 0 ==> min_usize(s.active_project, (a.projects.len() - 1) as usize)
            == a.active_project,
        forall|i: int|
            0 <= i < a.projects@.len() ==> {
                let p = a.projects@[i];
                let t = #[trigger] s.projects@[i];
                &&& t.name == p.name
                &&& t.cwd == p.cwd
                &&& min_usize(t.active_window, (p.windows.len() - 1) as usize) == p.active_window
            },
{
    assert forall|i: int| 0 <= i < a.projects@.len() implies {
        let p = a.projects@[i];
        let t = #[trigger] s.projects@[i];
        &&& t.name == p.name
        &&& t.cwd == p.cwd
        &&& min_usize(t.active_window, (p.windows.len() - 1) as usize) == p.active_window
    } by {
        law_project_save_restore(a.projects@[i], s.projects@[i]);
    }
}

impl App {
    /// The saved form of the whole workspace.
    pub fn session_state(&self) -> (r: SessionState)
        ensures
            saved_state(*self, r),
    {
        let mut projects: Vec<SessionProject> = Vec::new();
        let n = self.projects.len();
        let mut i: usize = 0;
        while i < n
            invariant
                n == self.projects@.len(),
                i <= n,
                projects@.len() == i,
                forall|j: int| 0 <= j < i ==> saved_project(self.projects@[j], #[trigger] projects@[j]),
            decreases n - i,
        {
            projects.push(self.projects[i].session_project());
            i = i + 1;
        }
        SessionState { active_project: self.active_project, projects }
    }

    /// Adds a project restored from a save, with its restored windows (at
    /// least one); its active window is the saved one, or the last window
    /// when the saved index is out of range.
    pub fn push_restored_project(
        &mut self,
        name: String,
        cwd: String,
        active_window: usize,
        windows: Vec<WindowPage>,
    )
        requires
            old(self).wf(),
            windows@.len() > 0,
            forall|i: int| 0 <= i < windows@.len() ==> (#[trigger] windows@[i]).wf(),
        ensures
            final(self).wf(),
            final(self).projects@ == old(self).projects@.push(
                Project {
                    name,
                    cwd,
                    active_window: min_usize(active_window, (windows@.len() - 1) as usize),
                    windows,
                },
            ),
            final(self).active_project == old(self).active_project,
            same_settings(*old(self), *final(self)),
    {
        let last = windows.len() - 1;
        let active = if active_window < last { active_window } else { last };
        self.projects.push(Project { name, cwd, windows, active_window: active });
        assert forall|i: int| 0 <= i < self.projects@.len() implies (#[trigger] self.projects@[i]).wf() by {
            if i < old(self).projects@.len() {
                assert(self.projects@[i] == old(self).projects@[i]);
            }
        }
    }

    /// Ends a restore: when projects were restored, the saved active project
    /// becomes active (the last one when the saved index is out of range)
    /// and the result is `true`; with no project the result is `false`.
    pub fn finish_restore(&mut self, active_project: usize) -> (r: bool)
        requires
            old(self).wf(),
        ensures
            final(self).wf(),
            r == (old(self).projects@.len() > 0),
            r ==> final(self).active_project == min_usize(
                active_project,
                (old(self).projects@.len() - 1) as usize,
            ),
            !r ==> final(self).active_project == old(self).active_project,
            final(self).projects == old(self).projects,
            same_settings(*old(self), *final(self)),
    {
        if self.projects.len() == 0 {
            return false;
        }
        let last = self.projects.len() - 1;
        self.active_project = if active_project < last { active_project } else { last };
        true
    }
}


/// What closing the active pane of `a` does (see `close_active_pane`).
pub open spec fn close_outcome(a: App) -> CloseOutcome {
    match a.spec_active_window() {
        None => CloseOutcome::Nothing,
        Some(w) => if w.panes@.len() <= 1 && a.projects@[a.active_project as int].windows@.len() <= 1 {
            CloseOutcome::NeedsFreshProject
        } else if w.panes@.len() <= 1 {
            CloseOutcome::WindowClosed
        } else {
            CloseOutcome::PaneClosed
        },
    }
}

/// `b` is `a` after closing its active pane (see `close_active_pane`).
pub open spec fn spec_closed(a: App, b: App) -> bool {
    match close_outcome(a) {
        CloseOutcome::Nothing => b == a,
        CloseOutcome::NeedsFreshProject => b == a,
        CloseOutcome::WindowClosed => {
            let ap = a.active_project as int;
            exists|mid: App|
                same_settings(a, mid) && mid.active_project == a.active_project && mid.projects@
                    == a.projects@.update(ap, mid.projects@[ap]) && window_closed(
                    a.projects@[ap],
                    mid.projects@[ap],
                ) && #[trigger] all_resized(mid, b) && same_settings(mid, b)
        },
        CloseOutcome::PaneClosed => exists|mid: App|
            same_settings(a, mid) && mid.active_project == a.active_project
                && only_active_window_changes(a, mid, |w: WindowPage, v: WindowPage| pane_closed(w, v))
                && #[trigger] all_resized(mid, b) && same_settings(mid, b),
    }
}

/// `b` is `a` with the next (or previous) window of the active project active.
pub open spec fn active_window_moved(a: App, b: App, forward: bool) -> bool {
    &&& same_settings(a, b)
    &&& b.active_project == a.active_project
    &&& match a.spec_active_project() {
        Some(p) => {
            let ap = a.active_project as int;
            let w = if forward {
                ring_next(p.active_window, p.windows@.len())
            } else {
                ring_previous(p.active_window, p.windows@.len())
            };
            b.projects@ == a.projects@.update(ap, b.projects@[ap]) && project_with_active_window(
                p,
                b.projects@[ap],
                w,
            )
        },
        None => b.projects == a.projects,
    }
}

/// `b` is `a` with the next (or previous) pane of the active window active.
pub open spec fn active_pane_moved(a: App, b: App, forward: bool) -> bool {
    &&& same_settings(a, b)
    &&& b.active_project == a.active_project
    &&& only_active_window_changes(
        a,
        b,
        |w: WindowPage, v: WindowPage|
            window_with_active_pane(
                w,
                v,
                if forward {
                    ring_next(w.active_pane, w.panes@.len())
                } else {
                    ring_previous(w.active_pane, w.panes@.len())
                },
            ),
    )
}

/// The number of the item after `n` items (kept within `usize`).
pub open spec fn count_after(n: nat) -> nat {
    if n < usize::MAX { n + 1 } else { usize::MAX as nat }
}

/// The name of the first window of a project.
pub open spec fn window_one() -> Seq<char> {
    seq!['w', 'i', 'n', 'd', 'o', 'w', ' ', '1']
}

/// The name of the first pane of a window.
pub open spec fn pane_one() -> Seq<char> {
    seq!['p', 'a', 'n', 'e', ' ', '1']
}

/// `w` is a window named `name` holding the single pane `pane`.
pub open spec fn single_pane_window(w: WindowPage, name: Seq<char>, pane: TerminalTab) -> bool {
    &&& w.name@ == name
    &&& w.panes@ == seq![pane]
    &&& w.active_pane == 0
    &&& w.layout == PaneNode::Leaf(0)
}

/// `p` is a project in `cwd`, named after it, with one window "window 1"
/// holding the single pane `pane`.
pub open spec fn fresh_project(p: Project, cwd: String, pane: TerminalTab) -> bool {
    &&& p.name@ == spec_project_name(cwd@)
    &&& p.cwd == cwd
    &&& p.active_window == 0
    &&& p.windows@.len() == 1
    &&& single_pane_window(p.windows@[0], window_one(), pane)
}

/// `b` is `a` with a fresh project in `cwd` added last and made active.
pub open spec fn project_added(a: App, b: App, cwd: String, pane: TerminalTab) -> bool {
    &&& same_settings(a, b)
    &&& b.projects@.len() == a.projects@.len() + 1
    &&& b.projects@.take(a.projects@.len() as int) == a.projects@
    &&& fresh_project(b.projects@.last(), cwd, pane)
    &&& b.active_project == a.projects@.len()
}

/// `b` is `a` with its active project started afresh in `cwd`.
pub open spec fn project_replaced(a: App, b: App, cwd: String, pane: TerminalTab) -> bool {
    &&& same_settings(a, b)
    &&& b.active_project == a.active_project
    &&& b.projects@ == a.projects@.update(a.active_project as int, b.projects@[a.active_project as int])
    &&& fresh_project(b.projects@[a.active_project as int], cwd, pane)
}

/// `b` is `a` with a window `name` holding `pane` added last to the active
/// project and made its active window.
pub open spec fn window_added(a: App, b: App, name: String, pane: TerminalTab) -> bool {
    let ap = a.active_project as int;
    let p = a.projects@[ap];
    let q = b.projects@[ap];
    &&& same_settings(a, b)
    &&& b.active_project == a.active_project
    &&& b.projects@ == a.projects@.update(ap, q)
    &&& q.name == p.name
    &&& q.cwd == p.cwd
    &&& q.windows@.len() == p.windows@.len() + 1
    &&& q.windows@.take(p.windows@.len() as int) == p.windows@
    &&& single_pane_window(q.windows@.last(), name@, pane)
    &&& q.active_window == p.windows@.len()
}

/// `v` is `w` with `pane` added last, made active, and the active pane's
/// leaf split in `direction` with the new pane second.
pub open spec fn window_split(w: WindowPage, v: WindowPage, pane: TerminalTab, direction: SplitDirection) -> bool {
    &&& v.name == w.name
    &&& v.panes@ == w.panes@.push(pane)
    &&& v.active_pane == w.panes@.len()
    &&& v.layout == w.layout.spec_split_leaf(w.active_pane, w.panes@.len() as usize, direction).0
}

/// What a split of the active pane needs.
#[derive(Debug, PartialEq, Eq)]
pub enum SplitRequest {
    /// There is no project: open one instead.
    NoProject,
    /// The project has no window: open one instead.
    NoWindow,
    /// Spawn a pane named `name` working in `cwd` (to be normalized).
    Spawn { cwd: String, name: String },
}

/// What closing the active pane did.
#[derive(Debug, PartialEq, Eq)]
pub enum CloseOutcome {
    /// There was no pane to close.
    Nothing,
    /// The pane was closed; its window stays.
    PaneClosed,
    /// The window's only pane was closed, and with it the window.
    WindowClosed,
    /// The project's only pane is to be closed: the project must start
    /// afresh (see `replace_with_fresh_project`); nothing changed yet.
    NeedsFreshProject,
}

/// `v` is `w` without its active pane: the pane is gone, its leaf is
/// removed from the layout and the panes after it are renumbered, the
/// active pane stays at the same place (or the last one), and the layout is
/// sanitized for the remaining panes.
pub open spec fn pane_closed(w: WindowPage, v: WindowPage) -> bool {
    let i = w.active_pane;
    &&& v.name == w.name
    &&& v.panes@ == w.panes@.remove(i as int)
    &&& v.active_pane == min_usize(i, (w.panes@.len() - 2) as usize)
    &&& v.layout == w.layout.spec_remove_leaf(i).spec_shift(i).spec_sanitize(
        (w.panes@.len() - 1) as nat,
    )
}

/// `q` is `p` without its active window; the window before it becomes
/// active (the first one when it was first).
pub open spec fn window_closed(p: Project, q: Project) -> bool {
    let i = p.active_window;
    &&& q.name == p.name
    &&& q.cwd == p.cwd
    &&& q.windows@ == p.windows@.remove(i as int)
    &&& q.active_window == (if i == 0 { 0 } else { (i - 1) as usize })
}

fn new_window_for_cwd(name: String, pane: TerminalTab) -> (r: WindowPage)
    ensures
        single_pane_window(r, name@, pane),
        r.name == name,
        r.wf(),
{
    let mut panes = Vec::new();
    panes.push(pane);
    assert(panes@ =~= seq![pane]);
    let r = WindowPage { name, panes, active_pane: 0, layout: PaneNode::Leaf(0) };
    assert(r.layout.leaves() == seq![0usize]);
    r
}

fn fresh_project_value(cwd: String, pane: TerminalTab) -> (r: Project)
    ensures
        fresh_project(r, cwd, pane),
        r.wf(),
{
    let name = project_name(cwd.as_str());
    let window_name = String::from_str("window 1");
    proof {
        reveal_strlit("window 1");
    }
    assert(window_name@ =~= window_one());
    let window = new_window_for_cwd(window_name, pane);
    let mut windows = Vec::new();
    windows.push(window);
    assert(windows@[0] == window);
    Project { name, cwd, windows, active_window: 0 }
}

impl App {
    /// Opens a project in `cwd` (the home directory) with one window and the
    /// freshly spawned pane `pane`, makes it active, and resizes every pane.
    pub fn add_project(&mut self, cwd: String, pane: TerminalTab)
        requires
            old(self).wf(),
        ensures
            final(self).wf(),
            exists|mid: App|
                project_added(*old(self), mid, cwd, pane) && #[trigger] all_resized(mid, *final(self))
                    && same_settings(mid, *final(self)),
    {
        let project = fresh_project_value(cwd, pane);
        self.projects.push(project);
        self.active_project = self.projects.len() - 1;
        assert(self.projects@.take(old(self).projects@.len() as int) =~= old(self).projects@);
        assert forall|i: int| 0 <= i < self.projects@.len() implies (#[trigger] self.projects@[i]).wf() by {
            if i < old(self).projects@.len() {
                assert(self.projects@[i] == old(self).projects@[i]);
            }
        }
        let ghost mid = *self;
        self.resize_all_panes();
        assert(project_added(*old(self), mid, cwd, pane) && all_resized(mid, *self));
    }

    /// Starts the active project afresh in `cwd` (the home directory): named
    /// after it, with one window and the freshly spawned pane `pane`; then
    /// resizes every pane.
    pub fn replace_with_fresh_project(&mut self, cwd: String, pane: TerminalTab)
        requires
            old(self).wf(),
            old(self).active_project < old(self).projects@.len(),
        ensures
            final(self).wf(),
            exists|mid: App|
                project_replaced(*old(self), mid, cwd, pane) && #[trigger] all_resized(mid, *final(self))
                    && same_settings(mid, *final(self)),
    {
        let project = fresh_project_value(cwd, pane);
        let ap = self.active_project;
        self.projects.set(ap, project);
        let ghost mid = *self;
        self.resize_all_panes();
        assert(project_replaced(*old(self), mid, cwd, pane) && all_resized(mid, *self));
    }

    /// Where a new window of the active project works and what it is
    /// called: the project's directory (to be normalized) and "window N" for
    /// the N-th window; `None` when there is no project.
    pub fn new_window_request(&self) -> (r: Option<(String, String)>)
        ensures
            match self.spec_active_project() {
                Some(p) => r matches Some((cwd, name)) && cwd == p.cwd && name@
                    == seq!['w', 'i', 'n', 'd', 'o', 'w', ' '] + crate::text::decimal_chars(
                    count_after(p.windows@.len()),
                ),
                None => r is None,
            },
    {
        match self.active_project() {
            Some(project) => {
                let n = project.windows.len();
                let name = crate::text::numbered("window ", n.saturating_add(1));
                proof {
                    reveal_strlit("window ");
                }
                Some((project.cwd.clone(), name))
            },
            None => None,
        }
    }
}


impl App {
    /// Adds a window `name` holding the freshly spawned pane `pane` to the
    /// active project, makes it the active window, and resizes every pane.
    pub fn add_window(&mut self, name: String, pane: TerminalTab)
        requires
            old(self).wf(),
            old(self).active_project < old(self).projects@.len(),
        ensures
            final(self).wf(),
            exists|mid: App|
                window_added(*old(self), mid, name, pane) && #[trigger] all_resized(mid, *final(self))
                    && same_settings(mid, *final(self)),
    {
        let window = new_window_for_cwd(name, pane);
        let ap = self.active_project;
        let project = &mut self.projects[ap];
        project.windows.push(window);
        project.active_window = project.windows.len() - 1;
        assert(project.windows@.take(old(self).projects@[ap as int].windows@.len() as int)
            =~= old(self).projects@[ap as int].windows@);
        assert(self.projects@ =~= old(self).projects@.update(ap as int, self.projects@[ap as int]));
        assert forall|i: int| 0 <= i < self.projects@[ap as int].windows@.len() implies (
        #[trigger] self.projects@[ap as int].windows@[i]).wf() by {
            if i < old(self).projects@[ap as int].windows@.len() {
                assert(self.projects@[ap as int].windows@[i] == old(self).projects@[ap as int].windows@[i]);
            }
        }
        assert(self.projects@[ap as int].wf());
        let ghost mid = *self;
        self.resize_all_panes();
        assert(window_added(*old(self), mid, name, pane) && all_resized(mid, *self));
    }

    /// What splitting the active pane needs: a project, a window, and then a
    /// pane spawned in the active pane's directory (the project's when there
    /// is no active pane), named "pane N" for the N-th pane of the window.
    pub fn split_request(&self) -> (r: SplitRequest)
        ensures
            match self.spec_active_project() {
                None => r == SplitRequest::NoProject,
                Some(p) => match self.spec_active_window() {
                    None => r == SplitRequest::NoWindow,
                    Some(w) => r matches SplitRequest::Spawn { cwd, name } && cwd == (
                    match self.spec_active_terminal() {
                        Some(t) => t.cwd,
                        None => p.cwd,
                    }) && name@ == seq!['p', 'a', 'n', 'e', ' '] + crate::text::decimal_chars(
                        count_after(w.panes@.len()),
                    ),
                },
            },
    {
        let project = match self.active_project() {
            Some(p) => p,
            None => {
                return SplitRequest::NoProject;
            },
        };
        let window = match self.active_window() {
            Some(w) => w,
            None => {
                return SplitRequest::NoWindow;
            },
        };
        let cwd = match self.active_terminal() {
            Some(pane) => pane.cwd.clone(),
            None => project.cwd.clone(),
        };
        let name = crate::text::numbered("pane ", window.panes.len().saturating_add(1));
        proof {
            reveal_strlit("pane ");
        }
        SplitRequest::Spawn { cwd, name }
    }

    /// Adds the freshly spawned pane `pane` to the active window, makes it
    /// active, splits the formerly active pane's leaf in `direction` with the
    /// new pane second, and resizes every pane.
    pub fn add_split_pane(&mut self, direction: SplitDirection, pane: TerminalTab)
        requires
            old(self).wf(),
            old(self).spec_active_window() is Some,
        ensures
            final(self).wf(),
            exists|mid: App|
                same_settings(*old(self), mid) && mid.active_project == old(self).active_project
                    && only_active_window_changes(
                    *old(self),
                    mid,
                    |w: WindowPage, v: WindowPage| window_split(w, v, pane, direction),
                ) && #[trigger] all_resized(mid, *final(self)) && same_settings(mid, *final(self)),
    {
        let ap = self.active_project;
        let project = &mut self.projects[ap];
        let aw = project.active_window;
        let window = &mut project.windows[aw];
        let split_target = window.active_pane;
        let ghost old_window = *window;
        window.panes.push(pane);
        let new_index = window.panes.len() - 1;
        window.active_pane = new_index;
        let _ = window.layout.split_leaf(split_target, new_index, direction);
        proof {
            assert(window.panes@.len() == old_window.panes@.len() + 1);
            if old_window.layout.spec_split_leaf(split_target, new_index, direction).1 {
                let s = old_window.layout.leaves();
                crate::pane_tree::lemma_leaf_pos(old_window.layout, split_target);
                let p = old_window.layout.leaf_pos(split_target);
                let t = s.insert(p + 1, new_index);
                assert forall|i: int| 0 <= i < t.len() implies #[trigger] t[i] < window.panes@.len() by {
                    if i < p + 1 {
                        assert(t[i] == s[i]);
                    } else if i > p + 1 {
                        assert(t[i] == s[i - 1]);
                    }
                }
            } else {
                assert forall|i: int| 0 <= i < window.layout.leaves().len() implies #[trigger] window.layout.leaves()[i]
                    < window.panes@.len() by {
                    assert(window.layout.leaves()[i] < old_window.panes@.len());
                }
            }
        }
        assert(project.windows@ =~= old(self).projects@[ap as int].windows@.update(
            aw as int,
            project.windows@[aw as int],
        ));
        assert(self.projects@ =~= old(self).projects@.update(ap as int, self.projects@[ap as int]));
        assert forall|i: int| 0 <= i < self.projects@[ap as int].windows@.len() implies (
        #[trigger] self.projects@[ap as int].windows@[i]).wf() by {
            if i != aw {
                assert(self.projects@[ap as int].windows@[i] == old(self).projects@[ap as int].windows@[i]);
            }
        }
        let ghost mid = *self;
        self.resize_all_panes();
        assert(all_resized(mid, *self));
    }

    /// Closes the active pane (see `CloseOutcome`): with other panes in the
    /// window, the pane goes (see `pane_closed`); as the window's only pane
    /// with other windows in the project, the window goes (see
    /// `window_closed`); as the project's only pane, nothing changes and the
    /// project must start afresh. Every pane is then resized.
    #[verifier::spinoff_prover]
    pub fn close_active_pane(&mut self) -> (r: CloseOutcome)
        requires
            old(self).wf(),
        ensures
            final(self).wf(),
            r == close_outcome(*old(self)),
            spec_closed(*old(self), *final(self)),
    {
        let ap = self.active_project;
        if ap >= self.projects.len() {
            return CloseOutcome::Nothing;
        }
        let win_idx = self.projects[ap].active_window;
        if win_idx >= self.projects[ap].windows.len() {
            return CloseOutcome::Nothing;
        }
        let closes_window = self.projects[ap].windows[win_idx].panes.len() <= 1;
        if closes_window {
            if self.projects[ap].windows.len() <= 1 {
                return CloseOutcome::NeedsFreshProject;
            }
            let project = &mut self.projects[ap];
            let _ = project.windows.remove(win_idx);
            project.active_window = win_idx.saturating_sub(1);
            assert(self.projects@ =~= old(self).projects@.update(ap as int, self.projects@[ap as int]));
            assert forall|i: int| 0 <= i < self.projects@[ap as int].windows@.len() implies (
            #[trigger] self.projects@[ap as int].windows@[i]).wf() by {
                if i < win_idx {
                    assert(self.projects@[ap as int].windows@[i] == old(self).projects@[ap as int].windows@[i]);
                } else {
                    assert(self.projects@[ap as int].windows@[i] == old(self).projects@[ap as int].windows@[i + 1]);
                }
            }
            let ghost mid = *self;
            self.resize_all_panes();
            assert(all_resized(mid, *self));
            return CloseOutcome::WindowClosed;
        }
        let project = &mut self.projects[ap];
        let window = &mut project.windows[win_idx];
        let ghost old_window = *window;
        let removed = window.active_pane;
        let _ = window.panes.remove(removed);
        let mut layout = PaneNode::Leaf(0);
        std::mem::swap(&mut layout, &mut window.layout);
        let mut layout = layout.remove_leaf(removed);
        layout.shift_after_removed(removed);
        let remaining = window.panes.len();
        window.active_pane = if removed < remaining - 1 { removed } else { remaining - 1 };
        window.layout = layout.sanitize(remaining);
        assert(window.panes@ =~= old_window.panes@.remove(removed as int));
        assert(project.windows@ =~= old(self).projects@[ap as int].windows@.update(
            win_idx as int,
            project.windows@[win_idx as int],
        ));
        assert(self.projects@ =~= old(self).projects@.update(ap as int, self.projects@[ap as int]));
        assert forall|i: int| 0 <= i < self.projects@[ap as int].windows@.len() implies (
        #[trigger] self.projects@[ap as int].windows@[i]).wf() by {
            if i != win_idx {
                assert(self.projects@[ap as int].windows@[i] == old(self).projects@[ap as int].windows@[i]);
            }
        }
        let ghost mid = *self;
        self.resize_all_panes();
        assert(all_resized(mid, *self));
        CloseOutcome::PaneClosed
    }
}


/// The pane whose program restarts after `key`: the active pane, when `key`
/// is Enter on a shell edit whose trimmed text is not empty.
pub open spec fn shell_restart(a: App, key: KeyEvent) -> Option<u64> {
    match a.rename_state {
        RenameState::Shell { buffer } => if key.code == KeyCode::Enter && crate::text::trimmed(
            buffer@,
        ).len() > 0 && a.spec_active_terminal() is Some {
            Some(a.spec_active_terminal().unwrap().id)
        } else {
            None
        },
        _ => None,
    }
}

/// Whether `key` confirms the deletion of a project: Enter, `y` or `Y`.
pub open spec fn confirms_delete(key: KeyEvent) -> bool {
    key.code == KeyCode::Enter || key.code == KeyCode::Char('y') || key.code == KeyCode::Char('Y')
}

/// `b` is `a` without its active project; the project before it (or the
/// first one) becomes active. With no active project nothing changes.
pub open spec fn project_deleted(a: App, b: App) -> bool {
    if a.active_project < a.projects@.len() {
        &&& b.projects@ == a.projects@.remove(a.active_project as int)
        &&& b.active_project == (if a.active_project > 0 {
            (a.active_project - 1) as usize
        } else {
            0
        })
    } else {
        b.projects == a.projects && b.active_project == a.active_project
    }
}

/// The answer to the deletion prompt: a confirming key deletes the active
/// project and asks for the session to be saved; any other key cancels;
/// either way the prompt ends.
pub open spec fn delete_key_handled(a: App, b: App, key: KeyEvent, r: Command) -> bool {
    &&& same_settings_except_rename(a, b)
    &&& b.rename_state == RenameState::Idle
    &&& if confirms_delete(key) && a.projects@.len() > 0 {
        project_deleted(a, b) && r == Command::SaveSession
    } else {
        b.projects == a.projects && b.active_project == a.active_project && r == Command::Nothing
    }
}

impl App {
    /// Starts editing the shell command of the active pane, its current
    /// command as the text.
    pub fn start_shell_edit(&mut self)
        requires
            old(self).wf(),
        ensures
            final(self).wf(),
            same_settings_except_rename(*old(self), *final(self)),
            final(self).rename_state matches RenameState::Shell { buffer } && buffer@ == (
            match old(self).spec_active_terminal() {
                Some(t) => t.shell@,
                None => Seq::empty(),
            }),
            final(self).projects == old(self).projects,
            final(self).active_project == old(self).active_project,
    {
        let buffer = match self.active_terminal() {
            Some(pane) => pane.shell.clone(),
            None => String::new(),
        };
        self.rename_state = RenameState::Shell { buffer };
    }

    /// The pane whose program restarts after `key` (see `shell_restart`).
    fn shell_restart_target(&self, key: KeyEvent) -> (r: Option<u64>)
        ensures
            r == shell_restart(*self, key),
    {
        match key.code {
            KeyCode::Enter => {},
            _ => {
                return None;
            },
        }
        let text = match &self.rename_state {
            RenameState::Shell { buffer } => crate::text::trim(buffer.as_str()),
            _ => {
                return None;
            },
        };
        if text.as_str().unicode_len() == 0 {
            return None;
        }
        match self.active_terminal() {
            Some(t) => Some(t.id),
            None => None,
        }
    }

    /// Deletes the active project (see `project_deleted`).
    pub fn delete_active_project(&mut self)
        requires
            old(self).wf(),
        ensures
            final(self).wf(),
            project_deleted(*old(self), *final(self)),
            same_settings(*old(self), *final(self)),
    {
        let ap = self.active_project;
        if ap >= self.projects.len() {
            return ;
        }
        self.projects.remove(ap);
        self.active_project = if ap > 0 { ap - 1 } else { 0 };
        assert forall|i: int| 0 <= i < self.projects@.len() implies (#[trigger] self.projects@[i]).wf() by {
            if i < ap {
                assert(self.projects@[i] == old(self).projects@[i]);
            } else {
                assert(self.projects@[i] == old(self).projects@[i + 1]);
            }
        }
    }

    /// Answers the deletion prompt with `key` (see `delete_key_handled`).
    fn confirm_delete_key(&mut self, key: KeyEvent) -> (r: Command)
        requires
            old(self).wf(),
            old(self).rename_state is ConfirmDelete,
        ensures
            final(self).wf(),
            delete_key_handled(*old(self), *final(self), key, r),
    {
        self.rename_state = RenameState::Idle;
        let confirmed = match key.code {
            KeyCode::Enter => true,
            KeyCode::Char(c) => c == 'y' || c == 'Y',
            _ => false,
        };
        if confirmed && self.projects.len() > 0 {
            self.delete_active_project();
            Command::SaveSession
        } else {
            Command::Nothing
        }
    }
}


/// `b` is `a` after giving `key` to the rename in progress (see
/// `handle_rename_key`).
pub open spec fn rename_key_handled(a: App, b: App, key: KeyEvent) -> bool {
    &&& same_settings_except_rename(a, b)
    &&& key.code == KeyCode::Enter ==> renamed(a, b, a.rename_state)
    &&& key.code != KeyCode::Enter ==> b.projects == a.projects && b.active_project == a.active_project
    &&& closes_rename(key) ==> b.rename_state == RenameState::Idle
    &&& !closes_rename(key) ==> rename_edited(a.rename_state, b.rename_state, key)
}

/// `a` with the prefix layer in the state `prefix`.
pub open spec fn with_prefix(a: App, prefix: bool) -> App {
    App { input: InputState { prefix }, prefix_active: prefix, ..a }
}

/// The command and the new state after `key` when no rename is in progress:
/// the prefix layer decides the action (see `spec_handle_key`), and the
/// action is carried out.
pub open spec fn key_handled(a: App, b: App, key: KeyEvent, r: Command) -> bool {
    let (prefix, action) = crate::input::spec_handle_key(a.input.prefix, key);
    let base = with_prefix(a, prefix);
    match action {
        ActionView::Send(bytes) => b == base && if !a.show_help && a.spec_active_terminal() is Some {
            r matches Command::Write(w) && w.pane_id == a.spec_active_terminal().unwrap().id
                && w.bytes@ == bytes
        } else {
            r == Command::Nothing
        },
        ActionView::NewProject => b == base && r == Command::NewProject,
        ActionView::NewWindow => b == base && r == Command::NewWindow,
        ActionView::SplitVertical => b == base && r == Command::Split(SplitDirection::Vertical),
        ActionView::SplitHorizontal => b == base && r == Command::Split(SplitDirection::Horizontal),
        ActionView::NextProject => b == App {
            active_project: ring_next(a.active_project, a.projects@.len()),
            ..base
        } && r == Command::Nothing,
        ActionView::PreviousProject => b == App {
            active_project: ring_previous(a.active_project, a.projects@.len()),
            ..base
        } && r == Command::Nothing,
        ActionView::SelectProject(i) => b == App {
            active_project: if i < a.projects@.len() { i } else { a.active_project },
            ..base
        } && r == Command::Nothing,
        ActionView::NextWindow => active_window_moved(base, b, true) && r == Command::Nothing,
        ActionView::PreviousWindow => active_window_moved(base, b, false) && r == Command::Nothing,
        ActionView::NextPane => active_pane_moved(base, b, true) && r == Command::Nothing,
        ActionView::PreviousPane => active_pane_moved(base, b, false) && r == Command::Nothing,
        ActionView::ClosePane => spec_closed(base, b) && r == (if close_outcome(base)
            == CloseOutcome::NeedsFreshProject {
            Command::FreshProject
        } else {
            Command::Nothing
        }),
        ActionView::StartProjectRename => {
            &&& b.projects == a.projects
            &&& b.active_project == a.active_project
            &&& same_settings_except_rename(base, b)
            &&& r == Command::Nothing
            &&& b.rename_state matches RenameState::Project { buffer } && buffer@ == (match a.spec_active_project() {
                Some(p) => p.name@,
                None => Seq::empty(),
            })
        },
        ActionView::StartWindowRename => {
            &&& b.projects == a.projects
            &&& b.active_project == a.active_project
            &&& same_settings_except_rename(base, b)
            &&& r == Command::Nothing
            &&& b.rename_state matches RenameState::Window { buffer } && buffer@ == (match a.spec_active_window() {
                Some(w) => w.name@,
                None => Seq::empty(),
            })
        },
        ActionView::StartPaneRename => {
            &&& b.projects == a.projects
            &&& b.active_project == a.active_project
            &&& same_settings_except_rename(base, b)
            &&& r == Command::Nothing
            &&& b.rename_state matches RenameState::Pane { buffer } && buffer@ == (match a.spec_active_terminal() {
                Some(t) => t.name@,
                None => Seq::empty(),
            })
        },
        ActionView::DeleteProject => b == App { rename_state: RenameState::ConfirmDelete, ..base }
            && r == Command::Nothing,
        ActionView::EditShell => {
            &&& b.projects == a.projects
            &&& b.active_project == a.active_project
            &&& same_settings_except_rename(base, b)
            &&& r == Command::Nothing
            &&& b.rename_state matches RenameState::Shell { buffer } && buffer@ == (match a.spec_active_terminal() {
                Some(t) => t.shell@,
                None => Seq::empty(),
            })
        },
        ActionView::SaveAndQuit => b == App { should_quit: true, ..base } && r == Command::SaveSession,
        ActionView::Quit => b == App { should_quit: true, ..base } && r == Command::Nothing,
        ActionView::ToggleHelp => b == App { show_help: !a.show_help, ..base } && r == Command::Nothing,
        ActionView::NoAction => b == base && r == Command::Nothing,
    }
}

impl App {
    /// The write of `bytes` to the active pane, unless help is shown or
    /// there is no active pane.
    fn send_command(&self, bytes: Vec<u8>) -> (r: Command)
        ensures
            if !self.show_help && self.spec_active_terminal() is Some {
                r matches Command::Write(w) && w.pane_id == self.spec_active_terminal().unwrap().id
                    && w.bytes@ == bytes@
            } else {
                r == Command::Nothing
            },
    {
        if self.show_help {
            return Command::Nothing;
        }
        match self.active_terminal() {
            Some(pane) => Command::Write(PaneWrite { pane_id: pane.id, bytes }),
            None => Command::Nothing,
        }
    }

    /// Handles a key: a rename in progress takes it first (see
    /// `handle_rename_key`); otherwise the prefix layer turns it into an
    /// action, which is carried out here or returned as a command (see
    /// `key_handled`).
    #[verifier::spinoff_prover]
    pub fn handle_key(&mut self, key: KeyEvent) -> (r: Command)
        requires
            old(self).wf(),
        ensures
            final(self).wf(),
            old(self).rename_state is ConfirmDelete ==> delete_key_handled(
                *old(self),
                *final(self),
                key,
                r,
            ),
            !(old(self).rename_state is Idle) && !(old(self).rename_state is ConfirmDelete) ==> r == (
            match shell_restart(*old(self), key) {
                Some(id) => Command::Restart(id),
                None => Command::Nothing,
            }) && rename_key_handled(*old(self), *final(self), key),
            old(self).rename_state is Idle ==> key_handled(*old(self), *final(self), key, r),
    {
        let deleting = match &self.rename_state {
            RenameState::ConfirmDelete => true,
            _ => false,
        };
        if deleting {
            return self.confirm_delete_key(key);
        }
        let restart = self.shell_restart_target(key);
        if self.handle_rename_key(key) {
            return match restart {
                Some(id) => Command::Restart(id),
                None => Command::Nothing,
            };
        }
        let action = self.input.handle_key(key);
        self.prefix_active = self.input.prefix;
        match action {
            InputAction::Send(bytes) => {
                self.send_command(bytes)
            },
            InputAction::NewProject => Command::NewProject,
            InputAction::NewWindow => Command::NewWindow,
            InputAction::SplitVertical => Command::Split(SplitDirection::Vertical),
            InputAction::SplitHorizontal => Command::Split(SplitDirection::Horizontal),
            InputAction::NextProject => {
                self.next_project();
                Command::Nothing
            },
            InputAction::PreviousProject => {
                self.previous_project();
                Command::Nothing
            },
            InputAction::SelectProject(index) => {
                self.select_project(index);
                Command::Nothing
            },
            InputAction::NextWindow => {
                self.next_window();
                Command::Nothing
            },
            InputAction::PreviousWindow => {
                self.previous_window();
                Command::Nothing
            },
            InputAction::NextPane => {
                self.next_pane();
                Command::Nothing
            },
            InputAction::PreviousPane => {
                self.previous_pane();
                Command::Nothing
            },
            InputAction::ClosePane => {
                match self.close_active_pane() {
                    CloseOutcome::NeedsFreshProject => Command::FreshProject,
                    _ => Command::Nothing,
                }
            },
            InputAction::StartProjectRename => {
                self.start_project_rename();
                Command::Nothing
            },
            InputAction::StartWindowRename => {
                self.start_window_rename();
                Command::Nothing
            },
            InputAction::StartPaneRename => {
                self.start_pane_rename();
                Command::Nothing
            },
            InputAction::DeleteProject => {
                self.rename_state = RenameState::ConfirmDelete;
                Command::Nothing
            },
            InputAction::EditShell => {
                self.start_shell_edit();
                Command::Nothing
            },
            InputAction::SaveAndQuit => {
                self.should_quit = true;
                Command::SaveSession
            },
            InputAction::Quit => {
                self.should_quit = true;
                Command::Nothing
            },
            InputAction::ToggleHelp => {
                self.show_help = !self.show_help;
                Command::Nothing
            },
            InputAction::NoAction => Command::Nothing,
        }
    }
}

/// The width of the tab of window `index` named `name` in the window bar:
/// the label " N:name " and one cell of space after it.
pub open spec fn tab_width(index: nat, name: Seq<char>) -> int {
    (crate::mouse::decimal(index + 1).len() + name.len() + 4) as int
}

/// The window whose tab is at column `col`, tabs laid out from `x`, the
/// bar ending at `end`; the search stops at the first tab that reaches the
/// end of the bar.
pub open spec fn spec_tab_at(windows: Seq<WindowPage>, i: nat, x: int, col: int, end: int) -> Option<
    usize,
>
    decreases windows.len() - i,
{
    if i >= windows.len() {
        None
    } else {
        let w = tab_width(i, windows[i as int].name@);
        if col < x + w {
            Some(i as usize)
        } else if x + w >= end {
            None
        } else {
            spec_tab_at(windows, i + 1, x + w, col, end)
        }
    }
}

/// The window of `project` whose tab in the window bar `area` is at column
/// `col` (see `spec_tab_at`).
pub fn window_tab_idx_at_col(project: &Project, area: Rect, col: u16) -> (r: Option<usize>)
    ensures
        r == spec_tab_at(project.windows@, 0, area.x as int, col as int, area.x + area.width),
        r matches Some(i) ==> i < project.windows@.len(),
{
    let end: u128 = area.x as u128 + area.width as u128;
    let mut x: u128 = area.x as u128;
    let n = project.windows.len();
    let mut i: usize = 0;
    while i < n
        invariant
            n == project.windows@.len(),
            i <= n,
            end as int == area.x + area.width,
            x < end || i == 0,
            x <= 0x20000,
            spec_tab_at(project.windows@, 0, area.x as int, col as int, end as int) == spec_tab_at(
                project.windows@,
                i as nat,
                x as int,
                col as int,
                end as int,
            ),
        decreases n - i,
    {
        let number = crate::text::numbered(" ", i + 1);
        proof {
            reveal_strlit(" ");
        }
        let name_len = project.windows[i].name.as_str().unicode_len();
        let number_len = number.as_str().unicode_len();
        let w: u128 = number_len as u128 + name_len as u128 + 3;
        assert(w == tab_width(i as nat, project.windows@[i as int].name@));
        assert(spec_tab_at(project.windows@, i as nat, x as int, col as int, end as int) == (if (col as int) < x + w {
            Some(i)
        } else if x + w >= end {
            None
        } else {
            spec_tab_at(project.windows@, (i + 1) as nat, x + w, col as int, end as int)
        }));
        if (col as u128) < x + w {
            assert(spec_tab_at(project.windows@, i as nat, x as int, col as int, end as int) == Some(i));
            return Some(i);
        }
        x = x + w;
        if x >= end {
            return None;
        }
        i = i + 1;
    }
    None
}

/// The ratio of the split over `area` whose separator is dragged to the
/// cell `(col, row)`: the offset of the pointer from the split's start over
/// the cells the two children share, kept at least one cell from either
/// end; an even split when the children share no cell.
pub open spec fn spec_drag_ratio(direction: SplitDirection, area: Rect, col: u16, row: u16) -> SplitRatio {
    let available = split_available(direction, area);
    if available == 0 {
        crate::pane_tree::half_ratio()
    } else {
        let offset = match direction {
            SplitDirection::Vertical => col.saturating_sub(area.x),
            SplitDirection::Horizontal => row.saturating_sub(area.y),
        };
        let num: u16 = if offset < 1 {
            1
        } else if offset > available - 1 {
            (available - 1) as u16
        } else {
            offset
        };
        SplitRatio { num, den: available }
    }
}

/// The split ratio for a separator dragged to `(col, row)` (see
/// `spec_drag_ratio`). A split whose children share exactly one cell has
/// no ratio to drag to and is left out.
pub fn compute_drag_ratio(direction: SplitDirection, area: Rect, col: u16, row: u16) -> (r: SplitRatio)
    requires
        split_available(direction, area) != 1,
    ensures
        r == spec_drag_ratio(direction, area, col, row),
        split_available(direction, area) >= 2 ==> 1 <= r.num < r.den,
{
    let (size, offset) = match direction {
        SplitDirection::Vertical => (
            crate::layout::span_of(area, crate::layout::Direction::Horizontal),
            col.saturating_sub(area.x),
        ),
        SplitDirection::Horizontal => (
            crate::layout::span_of(area, crate::layout::Direction::Vertical),
            row.saturating_sub(area.y),
        ),
    };
    let available = size - crate::layout::separator_len_of(direction, area);
    if available == 0 {
        return SplitRatio::half();
    }
    let num = if offset < 1 {
        1
    } else if offset > available - 1 {
        available - 1
    } else {
        offset
    };
    SplitRatio { num, den: available }
}

/// The areas of the screen of `a`.
pub open spec fn screen_root(a: App) -> RootAreas {
    spec_root_areas(Rect { x: 0, y: 0, width: a.screen_cols, height: a.screen_rows })
}

/// Whether the program in pane `pane` of the active window asked for mouse
/// reports.
pub open spec fn pane_mouse_mode(a: App, pane: usize) -> bool {
    match a.spec_active_window() {
        Some(w) => pane < w.panes@.len() && w.panes@[pane as int].mouse_reporting,
        None => false,
    }
}

/// The cell of pane `pane`'s screen under the screen cell `(col, row)`,
/// clamped to the screen; `(0, 0)` when the pane is not shown.
pub open spec fn spec_mouse_local(a: App, pane: usize, col: u16, row: u16, root: RootAreas) -> (u16, u16) {
    match a.spec_active_window() {
        None => (0, 0),
        Some(w) => match spec_pane_terminal_rect(w.panes@.len(), w.layout, root.pane_stack, pane) {
            None => (0, 0),
            Some(t) => if pane >= w.panes@.len() {
                (0, 0)
            } else {
                let lc = col.saturating_sub(t.x);
                let lr = row.saturating_sub(t.y);
                let p = w.panes@[pane as int];
                let max_c = p.cols.saturating_sub(1);
                let max_r = p.rows.saturating_sub(1);
                (if lc < max_c { lc } else { max_c }, if lr < max_r { lr } else { max_r })
            },
        },
    }
}

/// `r` is the SGR report of the event for pane `pane` of the active window
/// at its cell `(lc, lr)`, when that pane exists and asked for mouse
/// reports; nothing otherwise.
pub open spec fn mouse_report_for(
    a: App,
    pane: usize,
    kind: MouseEventKind,
    modifiers: KeyModifiers,
    lc: u16,
    lr: u16,
    r: Option<PaneWrite>,
) -> bool {
    if pane_mouse_mode(a, pane) {
        let t = a.spec_active_window().unwrap().panes@[pane as int];
        r matches Some(w) && w.pane_id == t.id && w.bytes@ == spec_sgr_report(
            kind,
            modifiers,
            lc,
            lr,
            t.cols,
            t.rows,
        )
    } else {
        r is None
    }
}

impl App {
    /// Whether the program in pane `pane` of the active window asked for
    /// mouse reports; mouse events are forwarded only to such panes.
    pub fn pane_has_mouse_mode(&self, pane: usize) -> (r: bool)
        ensures
            r == pane_mouse_mode(*self, pane),
    {
        match self.active_window() {
            Some(window) => pane < window.panes.len() && window.panes[pane].mouse_reporting,
            None => false,
        }
    }

    /// The cell of pane `pane`'s screen under `(col, row)` (see `spec_mouse_local`).
    pub fn mouse_local_for_pane(&self, pane: usize, col: u16, row: u16, root: &RootAreas) -> (r: (
        u16,
        u16,
    ))
        ensures
            r == spec_mouse_local(*self, pane, col, row, *root),
    {
        let window = match self.active_window() {
            Some(w) => w,
            None => {
                return (0, 0);
            },
        };
        let term_rect = match crate::layout::pane_terminal_rect(
            window.panes.len(),
            &window.layout,
            root.pane_stack,
            pane,
        ) {
            Some(t) => t,
            None => {
                return (0, 0);
            },
        };
        let lc = col.saturating_sub(term_rect.x);
        let lr = row.saturating_sub(term_rect.y);
        if pane >= window.panes.len() {
            return (0, 0);
        }
        let (rows, cols) = window.panes[pane].screen_size();
        let max_c = cols.saturating_sub(1);
        let max_r = rows.saturating_sub(1);
        (if lc < max_c { lc } else { max_c }, if lr < max_r { lr } else { max_r })
    }

    /// The SGR report of an event for pane `pane` of the active window, if
    /// that pane asked for mouse reports (see `mouse_report_for`).
    pub fn write_mouse_to_pane(
        &self,
        pane: usize,
        kind: MouseEventKind,
        modifiers: KeyModifiers,
        lc: u16,
        lr: u16,
    ) -> (r: Option<PaneWrite>)
        ensures
            mouse_report_for(*self, pane, kind, modifiers, lc, lr, r),
    {
        if !self.pane_has_mouse_mode(pane) {
            return None;
        }
        let window = match self.active_window() {
            Some(w) => w,
            None => {
                return None;
            },
        };
        let t = &window.panes[pane];
        match crate::mouse::encode_sgr_mouse(kind, modifiers, lc, lr, t.cols, t.rows) {
            Some(bytes) => Some(PaneWrite { pane_id: t.id, bytes }),
            None => None,
        }
    }
}

/// The hit in the pane stack of the active window of `a`.
pub open spec fn active_pane_hit(a: App, col: u16, row: u16) -> Option<PaneHit> {
    match a.spec_active_window() {
        Some(w) => spec_hit_test_pane_stack(w.panes@.len(), w.layout, screen_root(a).pane_stack, col, row),
        None => None,
    }
}

/// The separator of the active window of `a` under the pointer.
pub open spec fn active_separator_hit(a: App, col: u16, row: u16) -> Option<
    (Seq<WhichChild>, SplitDirection, Rect),
> {
    match a.spec_active_window() {
        Some(w) => spec_hit_separator(w.layout, screen_root(a).pane_stack, col, row),
        None => None,
    }
}

/// `b` is `a` with pane `pane` of the active window active and every other
/// field but the projects as in `c`.
pub open spec fn pane_activated(a: App, b: App, c: App, pane: usize) -> bool {
    &&& b == App { projects: b.projects, ..c }
    &&& b.active_project == a.active_project
    &&& only_active_window_changes(
        a,
        b,
        |w: WindowPage, v: WindowPage| window_with_active_pane(w, v, pane),
    )
}

/// The report, if any, for the pane that holds the mouse grab in `a`.
pub open spec fn grab_report(a: App, ev: MouseEvent, r: Option<PaneWrite>) -> bool {
    match a.mouse_grab_pane {
        Some(pane) => {
            let (lc, lr) = spec_mouse_local(a, pane, ev.column, ev.row, screen_root(a));
            mouse_report_for(a, pane, ev.kind, ev.modifiers, lc, lr, r)
        },
        None => r is None,
    }
}

/// What a mouse event does to `a`, giving `b` and the report `r` for a
/// pane (see `handle_mouse`).
pub open spec fn mouse_handled(a: App, b: App, ev: MouseEvent, r: Option<PaneWrite>) -> bool {
    let root = screen_root(a);
    let col = ev.column;
    let row = ev.row;
    if a.show_help || !(a.rename_state is Idle) {
        b == a && r is None
    } else if spec_pointer_in(root.sidebar, col, row) {
        &&& r is None
        &&& match (ev.kind, spec_hit_project_row(root.projects_inner, col, row, a.projects@.len())) {
            (MouseEventKind::Down(MouseButton::Left), Some(i)) => b == App {
                active_project: i,
                mouse_grab_pane: None,
                ..a
            },
            _ => b == a,
        }
    } else {
        match ev.kind {
            MouseEventKind::Moved => {
                let h = if spec_pointer_in(root.pane_stack, col, row) {
                    active_separator_hit(a, col, row)
                } else {
                    None
                };
                &&& r is None
                &&& b == App { hover_separator: b.hover_separator, ..a }
                &&& match h {
                    Some(x) => b.hover_separator matches Some(p) && p@ == x.0,
                    None => b.hover_separator is None,
                }
            },
            MouseEventKind::Drag(_) => match a.separator_drag {
                Some(d) => {
                    let ratio = spec_drag_ratio(d.direction, d.area, col, row);
                    &&& r is None
                    &&& exists|mid: App|
                        same_settings(a, mid) && mid.active_project == a.active_project
                            && only_active_window_changes(
                            a,
                            mid,
                            |w: WindowPage, v: WindowPage|
                                v.name == w.name && v.panes == w.panes && v.active_pane
                                    == w.active_pane && v.layout == w.layout.spec_set_ratio(
                                    d.path@,
                                    ratio,
                                ),
                        ) && #[trigger] all_resized(mid, b) && same_settings(mid, b)
                },
                None => b == a && grab_report(a, ev, r),
            },
            MouseEventKind::Up(_) => if a.separator_drag is Some {
                b == App { separator_drag: None, mouse_grab_pane: None, ..a } && r is None
            } else {
                b == App { mouse_grab_pane: None, ..a } && grab_report(a, ev, r)
            },
            MouseEventKind::Down(_) => if spec_pointer_in(root.window_tab_bar, col, row) {
                let base = App { mouse_grab_pane: None, separator_drag: None, ..a };
                &&& r is None
                &&& match a.spec_active_project() {
                    Some(p) => match spec_tab_at(
                        p.windows@,
                        0,
                        root.window_tab_bar.x as int,
                        col as int,
                        root.window_tab_bar.x + root.window_tab_bar.width,
                    ) {
                        Some(w) => {
                            let ap = a.active_project as int;
                            &&& b == App { projects: b.projects, ..base }
                            &&& b.projects@ == a.projects@.update(ap, b.projects@[ap])
                            &&& project_with_active_window(p, b.projects@[ap], w)
                        },
                        None => b == base,
                    },
                    None => b == base,
                }
            } else {
                match active_separator_hit(a, col, row) {
                    Some(h) => {
                        &&& r is None
                        &&& b == App { separator_drag: b.separator_drag, mouse_grab_pane: None, ..a }
                        &&& b.separator_drag matches Some(d) && d.path@ == h.0 && d.direction == h.1
                            && d.area == h.2
                    },
                    None => match active_pane_hit(a, col, row) {
                        Some(PaneHit::Title(pi)) => r is None && pane_activated(
                            a,
                            b,
                            App { separator_drag: None, mouse_grab_pane: None, ..a },
                            pi,
                        ),
                        Some(PaneHit::Terminal { pane, local_col, local_row }) => if pane_mouse_mode(
                            a,
                            pane,
                        ) {
                            pane_activated(
                                a,
                                b,
                                App { separator_drag: None, mouse_grab_pane: Some(pane), ..a },
                                pane,
                            ) && mouse_report_for(
                                a,
                                pane,
                                ev.kind,
                                ev.modifiers,
                                local_col,
                                local_row,
                                r,
                            )
                        } else {
                            r is None && pane_activated(
                                a,
                                b,
                                App { separator_drag: None, mouse_grab_pane: None, ..a },
                                pane,
                            )
                        },
                        None => r is None && b == App {
                            separator_drag: None,
                            mouse_grab_pane: None,
                            ..a
                        },
                    },
                }
            },
            _ => match active_pane_hit(a, col, row) {
                Some(PaneHit::Title(pi)) => r is None && pane_activated(a, b, a, pi),
                Some(PaneHit::Terminal { pane, local_col, local_row }) => pane_activated(
                    a,
                    b,
                    a,
                    pane,
                ) && mouse_report_for(a, pane, ev.kind, ev.modifiers, local_col, local_row, r),
                None => b == a && r is None,
            },
        }
    }
}

impl App {
    /// Handles a mouse event (see `mouse_handled`): nothing while help is
    /// shown or a rename is in progress; in the sidebar a left press selects
    /// the project under it; hovering highlights a separator; a press on the
    /// window bar selects a window, on a separator starts a drag, on a pane
    /// activates it (and grabs the mouse for it if it takes mouse reports);
    /// drags move the dragged separator or go to the grabbing pane; a release
    /// ends either; the wheel activates the pane under it. Returns the report
    /// to write to a pane, if the event goes to one.
    #[verifier::spinoff_prover]
    #[verifier::rlimit(50)]
    pub fn handle_mouse(&mut self, ev: MouseEvent) -> (r: Option<PaneWrite>)
        requires
            old(self).wf(),
        ensures
            final(self).wf(),
            mouse_handled(*old(self), *final(self), ev, r),
    {
        if self.show_help {
            return None;
        }
        match self.rename_state {
            RenameState::Idle => {},
            _ => {
                return None;
            },
        }
        let area = Rect::new(0, 0, self.screen_cols, self.screen_rows);
        let root = crate::layout::compute_root_areas(area);
        let col = ev.column;
        let row = ev.row;
        if crate::layout::pointer_in_rect(root.sidebar, col, row) {
            match ev.kind {
                MouseEventKind::Down(MouseButton::Left) => {
                    match crate::layout::hit_project_row(
                        root.projects_inner,
                        col,
                        row,
                        self.projects.len(),
                    ) {
                        Some(idx) => {
                            self.select_project(idx);
                            self.mouse_grab_pane = None;
                        },
                        None => {},
                    }
                },
                _ => {},
            }
            return None;
        }
        match ev.kind {
            MouseEventKind::Moved => {
                let sep = if crate::layout::pointer_in_rect(root.pane_stack, col, row) {
                    match self.active_window() {
                        Some(w) => crate::layout::hit_separator(&w.layout, root.pane_stack, col, row),
                        None => None,
                    }
                } else {
                    None
                };
                self.hover_separator = match sep {
                    Some(h) => Some(h.path),
                    None => None,
                };
                None
            },
            MouseEventKind::Drag(_) => {
                let drag = match &self.separator_drag {
                    Some(d) => Some((d.path.clone(), d.direction, d.area)),
                    None => None,
                };
                match drag {
                    Some((path, direction, drag_area)) => {
                        let new_ratio = compute_drag_ratio(direction, drag_area, col, row);
                        self.set_active_layout_ratio(&path, new_ratio);
                        let ghost mid = *self;
                        self.resize_all_panes();
                        assert(all_resized(mid, *self));
                        None
                    },
                    None => self.grab_write(ev, &root),
                }
            },
            MouseEventKind::Up(_) => {
                if self.separator_drag.is_some() {
                    self.separator_drag = None;
                    self.mouse_grab_pane = None;
                    None
                } else {
                    let w = self.grab_write(ev, &root);
                    self.mouse_grab_pane = None;
                    w
                }
            },
            MouseEventKind::Down(_) => {
                if crate::layout::pointer_in_rect(root.window_tab_bar, col, row) {
                    let ap = self.active_project;
                    let idx = if ap < self.projects.len() {
                        window_tab_idx_at_col(&self.projects[ap], root.window_tab_bar, col)
                    } else {
                        None
                    };
                    match idx {
                        Some(i) => {
                            let project = &mut self.projects[ap];
                            project.active_window = i;
                            assert(self.projects@ =~= old(self).projects@.update(
                                ap as int,
                                self.projects@[ap as int],
                            ));
                        },
                        None => {},
                    }
                    self.mouse_grab_pane = None;
                    self.separator_drag = None;
                    return None;
                }
                let sep_hit = match self.active_window() {
                    Some(w) => crate::layout::hit_separator(&w.layout, root.pane_stack, col, row),
                    None => None,
                };
                match sep_hit {
                    Some(sep) => {
                        self.separator_drag = Some(
                            SeparatorDrag { path: sep.path, direction: sep.direction, area: sep.area },
                        );
                        self.mouse_grab_pane = None;
                        return None;
                    },
                    None => {},
                }
                self.separator_drag = None;
                let hit = match self.active_window() {
                    Some(w) => crate::layout::hit_test_pane_stack(
                        w.panes.len(),
                        &w.layout,
                        root.pane_stack,
                        col,
                        row,
                    ),
                    None => None,
                };
                match hit {
                    Some(PaneHit::Title(pi)) => {
                        self.set_active_pane(pi);
                        self.mouse_grab_pane = None;
                        None
                    },
                    Some(PaneHit::Terminal { pane, local_col, local_row }) => {
                        self.set_active_pane(pane);
                        if self.pane_has_mouse_mode(pane) {
                            self.mouse_grab_pane = Some(pane);
                            self.write_mouse_to_pane(pane, ev.kind, ev.modifiers, local_col, local_row)
                        } else {
                            self.mouse_grab_pane = None;
                            None
                        }
                    },
                    None => {
                        self.mouse_grab_pane = None;
                        None
                    },
                }
            },
            _ => {
                let hit = match self.active_window() {
                    Some(w) => crate::layout::hit_test_pane_stack(
                        w.panes.len(),
                        &w.layout,
                        root.pane_stack,
                        col,
                        row,
                    ),
                    None => None,
                };
                match hit {
                    Some(PaneHit::Terminal { pane, local_col, local_row }) => {
                        self.set_active_pane(pane);
                        self.write_mouse_to_pane(pane, ev.kind, ev.modifiers, local_col, local_row)
                    },
                    Some(PaneHit::Title(pi)) => {
                        self.set_active_pane(pi);
                        None
                    },
                    None => None,
                }
            },
        }
    }

    /// The report of a drag or release for the pane that holds the mouse
    /// grab, if it takes mouse reports (see `grab_report`).
    fn grab_write(&self, ev: MouseEvent, root: &RootAreas) -> (r: Option<PaneWrite>)
        requires
            *root == screen_root(*self),
        ensures
            grab_report(*self, ev, r),
    {
        match self.mouse_grab_pane {
            Some(pi) => {
                let (lc, lr) = self.mouse_local_for_pane(pi, ev.column, ev.row, root);
                self.write_mouse_to_pane(pi, ev.kind, ev.modifiers, lc, lr)
            },
            None => None,
        }
    }

    /// Sets the ratio of the split at `path` in the active window's layout.
    fn set_active_layout_ratio(&mut self, path: &Vec<WhichChild>, ratio: SplitRatio)
        requires
            old(self).wf(),
        ensures
            final(self).wf(),
            same_settings(*old(self), *final(self)),
            final(self).active_project == old(self).active_project,
            only_active_window_changes(
                *old(self),
                *final(self),
                |w: WindowPage, v: WindowPage|
                    v.name == w.name && v.panes == w.panes && v.active_pane == w.active_pane
                        && v.layout == w.layout.spec_set_ratio(path@, ratio),
            ),
    {
        let ap = self.active_project;
        if ap < self.projects.len() {
            let project = &mut self.projects[ap];
            let aw = project.active_window;
            if aw < project.windows.len() {
                let window = &mut project.windows[aw];
                let _ = window.layout.set_ratio_at_path(path, ratio);
                assert(project.windows@ =~= old(self).projects@[ap as int].windows@.update(
                    aw as int,
                    project.windows@[aw as int],
                ));
            }
            assert(self.projects@ =~= old(self).projects@.update(ap as int, self.projects@[ap as int]));
        }
    }
}

/// `u` is `t` with mouse reporting set to `on` when its id is `id`.
pub open spec fn tab_reporting_set(t: TerminalTab, u: TerminalTab, id: u64, on: bool) -> bool {
    &&& u.id == t.id
    &&& u.name == t.name
    &&& u.cwd == t.cwd
    &&& u.shell == t.shell
    &&& u.cols == t.cols
    &&& u.rows == t.rows
    &&& u.mouse_reporting == (if t.id == id { on } else { t.mouse_reporting })
}

/// `v` is `w` with mouse reporting set for the panes with id `id`.
pub open spec fn window_reporting_set(w: WindowPage, v: WindowPage, id: u64, on: bool) -> bool {
    &&& v.name == w.name
    &&& v.active_pane == w.active_pane
    &&& v.layout == w.layout
    &&& v.panes@.len() == w.panes@.len()
    &&& forall|i: int| 0 <= i < w.panes@.len() ==> tab_reporting_set(w.panes@[i], #[trigger] v.panes@[i], id, on)
}

/// `q` is `p` with mouse reporting set for the panes with id `id`.
pub open spec fn project_reporting_set(p: Project, q: Project, id: u64, on: bool) -> bool {
    &&& q.name == p.name
    &&& q.cwd == p.cwd
    &&& q.active_window == p.active_window
    &&& q.windows@.len() == p.windows@.len()
    &&& forall|i: int|
        0 <= i < p.windows@.len() ==> window_reporting_set(p.windows@[i], #[trigger] q.windows@[i], id, on)
}

fn set_window_reporting(window: &mut WindowPage, id: u64, on: bool)
    ensures
        window_reporting_set(*old(window), *final(window), id, on),
        old(window).wf() ==> final(window).wf(),
{
    let n = window.panes.len();
    let mut i: usize = 0;
    while i < n
        invariant
            n == window.panes@.len(),
            n == old(window).panes@.len(),
            i <= n,
            window.name == old(window).name,
            window.active_pane == old(window).active_pane,
            window.layout == old(window).layout,
            forall|j: int|
                0 <= j < i ==> tab_reporting_set(old(window).panes@[j], #[trigger] window.panes@[j], id, on),
            forall|j: int| i <= j < n ==> #[trigger] window.panes@[j] == old(window).panes@[j],
        decreases n - i,
    {
        let pane = &mut window.panes[i];
        if pane.id == id {
            pane.mouse_reporting = on;
        }
        i = i + 1;
    }
}

fn set_project_reporting(project: &mut Project, id: u64, on: bool)
    ensures
        project_reporting_set(*old(project), *final(project), id, on),
        old(project).wf() ==> final(project).wf(),
{
    let n = project.windows.len();
    let mut i: usize = 0;
    while i < n
        invariant
            n == project.windows@.len(),
            n == old(project).windows@.len(),
            i <= n,
            project.name == old(project).name,
            project.cwd == old(project).cwd,
            project.active_window == old(project).active_window,
            forall|j: int|
                0 <= j < i ==> window_reporting_set(old(project).windows@[j], #[trigger] project.windows@[j], id, on),
            forall|j: int|
                0 <= j < i ==> old(project).windows@[j].wf() ==> (#[trigger] project.windows@[j]).wf(),
            forall|j: int| i <= j < n ==> #[trigger] project.windows@[j] == old(project).windows@[j],
        decreases n - i,
    {
        let window = &mut project.windows[i];
        set_window_reporting(window, id, on);
        i = i + 1;
    }
}

impl App {
    /// Records whether the program in the pane with id `id` has a mouse
    /// reporting mode enabled, as its screen emulator reports after output.
    pub fn set_mouse_reporting(&mut self, id: u64, on: bool)
        requires
            old(self).wf(),
        ensures
            final(self).wf(),
            same_settings(*old(self), *final(self)),
            final(self).active_project == old(self).active_project,
            final(self).projects@.len() == old(self).projects@.len(),
            forall|i: int|
                0 <= i < old(self).projects@.len() ==> project_reporting_set(
                    old(self).projects@[i],
                    #[trigger] final(self).projects@[i],
                    id,
                    on,
                ),
    {
        let n = self.projects.len();
        let mut i: usize = 0;
        while i < n
            invariant
                n == self.projects@.len(),
                n == old(self).projects@.len(),
                i <= n,
                self.active_project == old(self).active_project,
                same_settings(*old(self), *self),
                forall|j: int|
                    0 <= j < i ==> project_reporting_set(old(self).projects@[j], #[trigger] self.projects@[j], id, on),
                forall|j: int| 0 <= j < n ==> (#[trigger] self.projects@[j]).wf(),
                forall|j: int| i <= j < n ==> #[trigger] self.projects@[j] == old(self).projects@[j],
                old(self).wf(),
            decreases n - i,
        {
            let project = &mut self.projects[i];
            set_project_reporting(project, id, on);
            i = i + 1;
        }
    }
}


/// Hovering never sends anything to a pane, and a mouse report only ever
/// goes to a pane of the active window whose program has turned mouse
/// reporting on.
pub proof fn law_reports_only_to_reporting_panes(a: App, b: App, ev: MouseEvent, r: Option<PaneWrite>)
    requires
        mouse_handled(a, b, ev, r),
    ensures
        ev.kind == MouseEventKind::Moved ==> r is None,
        r matches Some(w) ==> exists|p: usize|
            #[trigger] pane_mouse_mode(a, p) && a.spec_active_window().unwrap().panes@[p as int].id
                == w.pane_id,
{
    if let Some(w) = r {
        let p: usize = match ev.kind {
            MouseEventKind::Drag(_) => a.mouse_grab_pane.unwrap(),
            MouseEventKind::Up(_) => a.mouse_grab_pane.unwrap(),
            _ => match active_pane_hit(a, ev.column, ev.row) {
                Some(PaneHit::Terminal { pane, .. }) => pane,
                _ => 0,
            },
        };
        assert(pane_mouse_mode(a, p));
        assert(a.spec_active_window().unwrap().panes@[p as int].id == w.pane_id);
    }
}

/// A left press on a project row of the sidebar selects that project: no
/// report is sent, the projects are unchanged, and no pane holds the mouse.
pub proof fn law_project_click_selects(a: App, b: App, ev: MouseEvent, r: Option<PaneWrite>, i: usize)
    requires
        mouse_handled(a, b, ev, r),
        !a.show_help,
        a.rename_state is Idle,
        ev.kind == MouseEventKind::Down(MouseButton::Left),
        spec_hit_project_row(screen_root(a).projects_inner, ev.column, ev.row, a.projects@.len())
            == Some(i),
    ensures
        r is None,
        b.active_project == i,
        b.projects == a.projects,
        b.mouse_grab_pane is None,
{
    crate::layout::law_root_areas_nest(a.screen_cols, a.screen_rows, ev.column, ev.row);
}

/// A press on the title row of a pane (off the window bar and any
/// separator) makes that pane active: no report is sent, no separator is
/// dragged and no pane holds the mouse.
pub proof fn law_title_click_activates(a: App, b: App, ev: MouseEvent, r: Option<PaneWrite>, i: usize)
    requires
        mouse_handled(a, b, ev, r),
        !a.show_help,
        a.rename_state is Idle,
        ev.kind is Down,
        !spec_pointer_in(screen_root(a).window_tab_bar, ev.column, ev.row),
        active_separator_hit(a, ev.column, ev.row) is None,
        active_pane_hit(a, ev.column, ev.row) == Some(PaneHit::Title(i)),
    ensures
        r is None,
        pane_activated(a, b, App { separator_drag: None, mouse_grab_pane: None, ..a }, i),
{
    crate::layout::law_root_areas_nest(a.screen_cols, a.screen_rows, ev.column, ev.row);
}

/// The layout of `w` lists each of its panes exactly once.
pub open spec fn window_exact(w: WindowPage) -> bool {
    is_index_permutation(w.layout.leaves(), w.panes@.len())
}

/// Every window of every project of `a` has an exact layout.
pub open spec fn layouts_exact(a: App) -> bool {
    forall|i: int, j: int|
        0 <= i < a.projects@.len() && 0 <= j < a.projects@[i].windows@.len() ==> #[trigger] window_exact(
            a.projects@[i].windows@[j],
        )
}

/// Resizing keeps every layout and the number of panes of every window.
proof fn lemma_resized_keeps_exact(a: App, b: App)
    requires
        layouts_exact(a),
        all_resized(a, b),
    ensures
        layouts_exact(b),
{
    assert forall|i: int, j: int|
        0 <= i < b.projects@.len() && 0 <= j < b.projects@[i].windows@.len() implies #[trigger] window_exact(
            b.projects@[i].windows@[j],
        ) by {
        assert(project_resized(a.projects@[i], b.projects@[i], a.terminal_cols, a.terminal_rows));
        assert(window_resized(
            a.projects@[i].windows@[j],
            b.projects@[i].windows@[j],
            a.terminal_cols,
            a.terminal_rows,
        ));
        assert(window_exact(a.projects@[i].windows@[j]));
    }
}

/// Changing only the active window keeps every layout exact when the new
/// active window is exact.
proof fn lemma_active_window_change_keeps_exact(
    a: App,
    b: App,
    rel: spec_fn(WindowPage, WindowPage) -> bool,
)
    requires
        a.wf(),
        layouts_exact(a),
        only_active_window_changes(a, b, rel),
        a.spec_active_window() is Some ==> window_exact(
            b.projects@[a.active_project as int].windows@[a.projects@[a.active_project as int].active_window as int],
        ),
    ensures
        layouts_exact(b),
{
    if a.spec_active_window() is Some {
        let ap = a.active_project as int;
        let aw = a.projects@[ap].active_window as int;
        assert forall|i: int, j: int|
            0 <= i < b.projects@.len() && 0 <= j < b.projects@[i].windows@.len() implies #[trigger] window_exact(
                b.projects@[i].windows@[j],
            ) by {
            if i != ap {
                assert(b.projects@[i] == a.projects@[i]);
                assert(window_exact(a.projects@[i].windows@[j]));
            } else if j != aw {
                assert(b.projects@[i].windows@[j] == a.projects@[i].windows@[j]);
                assert(window_exact(a.projects@[i].windows@[j]));
            }
        }
    }
}

/// Closing the active pane keeps every layout exact: each window's layout
/// lists each of its panes once before, and so after.
pub proof fn law_close_keeps_layouts_exact(a: App, b: App)
    requires
        a.wf(),
        layouts_exact(a),
        spec_closed(a, b),
    ensures
        layouts_exact(b),
{
    let ap = a.active_project as int;
    match close_outcome(a) {
        CloseOutcome::WindowClosed => {
            let mid = choose|mid: App|
                same_settings(a, mid) && mid.active_project == a.active_project && mid.projects@
                    == a.projects@.update(ap, mid.projects@[ap]) && window_closed(
                    a.projects@[ap],
                    mid.projects@[ap],
                ) && #[trigger] all_resized(mid, b) && same_settings(mid, b);
            let aw = a.projects@[ap].active_window as int;
            assert forall|i: int, j: int|
                0 <= i < mid.projects@.len() && 0 <= j < mid.projects@[i].windows@.len() implies #[trigger] window_exact(
                    mid.projects@[i].windows@[j],
                ) by {
                if i != ap {
                    assert(mid.projects@[i] == a.projects@[i]);
                    assert(window_exact(a.projects@[i].windows@[j]));
                } else if j < aw {
                    assert(mid.projects@[i].windows@[j] == a.projects@[i].windows@[j]);
                    assert(window_exact(a.projects@[i].windows@[j]));
                } else {
                    assert(mid.projects@[i].windows@[j] == a.projects@[i].windows@[j + 1]);
                    assert(window_exact(a.projects@[i].windows@[j + 1]));
                }
            }
            lemma_resized_keeps_exact(mid, b);
        },
        CloseOutcome::PaneClosed => {
            let mid = choose|mid: App|
                same_settings(a, mid) && mid.active_project == a.active_project
                    && only_active_window_changes(a, mid, |w: WindowPage, v: WindowPage| pane_closed(w, v))
                    && #[trigger] all_resized(mid, b) && same_settings(mid, b);
            let w = a.spec_active_window().unwrap();
            let aw = a.projects@[ap].active_window as int;
            let v = mid.projects@[ap].windows@[aw];
            let n = w.panes@.len();
            assert(window_exact(a.projects@[ap].windows@[aw]));
            assert(n >= 2);
            assert(n <= usize::MAX) by {
                assert(w.panes@.len() == w.panes.len());
            }
            crate::pane_tree::law_close_keeps_permutation(w.layout, n, w.active_pane);
            let l = w.layout.spec_remove_leaf(w.active_pane).spec_shift(w.active_pane);
            assert(all_below(l.leaves(), (n - 1) as nat));
            assert(v.layout == l);
            assert(v.panes@.len() == n - 1);
            lemma_active_window_change_keeps_exact(a, mid, |w: WindowPage, v: WindowPage| pane_closed(w, v));
            lemma_resized_keeps_exact(mid, b);
        },
        _ => {},
    }
}

/// Splitting the active pane keeps every layout exact.
pub proof fn law_split_keeps_layouts_exact(
    a: App,
    b: App,
    pane: TerminalTab,
    direction: SplitDirection,
    mid: App,
)
    requires
        a.wf(),
        layouts_exact(a),
        a.spec_active_window() is Some,
        mid.active_project == a.active_project,
        only_active_window_changes(a, mid, |w: WindowPage, v: WindowPage| window_split(w, v, pane, direction)),
        all_resized(mid, b),
    ensures
        layouts_exact(b),
{
    let ap = a.active_project as int;
    let aw = a.projects@[ap].active_window as int;
    let w = a.spec_active_window().unwrap();
    let v = mid.projects@[ap].windows@[aw];
    let n = w.panes@.len();
    assert(window_exact(a.projects@[ap].windows@[aw]));
    assert(n <= usize::MAX) by {
        assert(w.panes@.len() == w.panes.len());
    }
    crate::pane_tree::law_split_extends_permutation(w.layout, n, w.active_pane, direction);
    assert(v.panes@.len() == n + 1);
    lemma_active_window_change_keeps_exact(
        a,
        mid,
        |w: WindowPage, v: WindowPage| window_split(w, v, pane, direction),
    );
    lemma_resized_keeps_exact(mid, b);
}

/// `b`'s projects are `a`'s, except that the active window of the active
/// project keeps its layout and its number of panes.
proof fn lemma_same_active_window_shape(a: App, b: App, rel: spec_fn(WindowPage, WindowPage) -> bool)
    requires
        a.wf(),
        layouts_exact(a),
        only_active_window_changes(a, b, rel),
        forall|w: WindowPage, v: WindowPage|
            #[trigger] rel(w, v) && w.active_pane < w.panes@.len() ==> v.layout == w.layout
                && v.panes@.len() == w.panes@.len(),
    ensures
        layouts_exact(b),
{
    if a.spec_active_window() is Some {
        let ap = a.active_project as int;
        let aw = a.projects@[ap].active_window as int;
        assert(window_exact(a.projects@[ap].windows@[aw]));
        assert(rel(a.projects@[ap].windows@[aw], b.projects@[ap].windows@[aw]));
    }
    lemma_active_window_change_keeps_exact(a, b, rel);
}

/// Every key keeps every layout exact: each window's layout lists each of
/// its panes once before the key, and so after it (the three cases are what
/// `handle_key` ensures).
pub proof fn law_handle_key_keeps_layouts_exact(a: App, b: App, key: KeyEvent, r: Command)
    requires
        a.wf(),
        layouts_exact(a),
        a.rename_state is ConfirmDelete ==> delete_key_handled(a, b, key, r),
        !(a.rename_state is Idle) && !(a.rename_state is ConfirmDelete) ==> rename_key_handled(a, b, key),
        a.rename_state is Idle ==> key_handled(a, b, key, r),
    ensures
        layouts_exact(b),
{
    let ap = a.active_project as int;
    if a.rename_state is ConfirmDelete {
        if confirms_delete(key) && a.projects@.len() > 0 {
            assert forall|i: int, j: int|
                0 <= i < b.projects@.len() && 0 <= j < b.projects@[i].windows@.len() implies #[trigger] window_exact(
                    b.projects@[i].windows@[j],
                ) by {
                if i < ap {
                    assert(b.projects@[i] == a.projects@[i]);
                    assert(window_exact(a.projects@[i].windows@[j]));
                } else {
                    assert(b.projects@[i] == a.projects@[i + 1]);
                    assert(window_exact(a.projects@[i + 1].windows@[j]));
                }
            }
        }
    } else if !(a.rename_state is Idle) {
        if key.code == KeyCode::Enter {
            let name = crate::text::trimmed(rename_buffer(a.rename_state));
            match a.rename_state {
                RenameState::Project { .. } => {
                    if name.len() > 0 && a.spec_active_project() is Some {
                        assert forall|i: int, j: int|
                            0 <= i < b.projects@.len() && 0 <= j < b.projects@[i].windows@.len() implies #[trigger] window_exact(
                                b.projects@[i].windows@[j],
                            ) by {
                            assert(b.projects@[i].windows == a.projects@[i].windows);
                            assert(window_exact(a.projects@[i].windows@[j]));
                        }
                    }
                },
                RenameState::Window { .. } => {
                    if name.len() > 0 {
                        lemma_same_active_window_shape(
                            a,
                            b,
                            |w: WindowPage, v: WindowPage|
                                v.name@ == name && v.panes == w.panes && v.active_pane == w.active_pane
                                    && v.layout == w.layout,
                        );
                    }
                },
                RenameState::Pane { .. } => {
                    if name.len() > 0 {
                        lemma_same_active_window_shape(
                            a,
                            b,
                            |w: WindowPage, v: WindowPage|
                                {
                                    let t = w.panes@[w.active_pane as int];
                                    let u = v.panes@[w.active_pane as int];
                                    &&& v.name == w.name
                                    &&& v.active_pane == w.active_pane
                                    &&& v.layout == w.layout
                                    &&& v.panes@ == w.panes@.update(w.active_pane as int, u)
                                    &&& u.name@ == name
                                    &&& u.id == t.id
                                    &&& u.cwd == t.cwd
                                    &&& u.shell == t.shell
                                    &&& u.cols == t.cols
                                    &&& u.rows == t.rows
                                    &&& u.mouse_reporting == t.mouse_reporting
                                },
                        );
                    }
                },
                RenameState::Shell { .. } => {
                    if name.len() > 0 {
                        lemma_same_active_window_shape(
                            a,
                            b,
                            |w: WindowPage, v: WindowPage|
                                {
                                    let t = w.panes@[w.active_pane as int];
                                    let u = v.panes@[w.active_pane as int];
                                    &&& v.name == w.name
                                    &&& v.active_pane == w.active_pane
                                    &&& v.layout == w.layout
                                    &&& v.panes@ == w.panes@.update(w.active_pane as int, u)
                                    &&& u.shell@ == name
                                    &&& u.id == t.id
                                    &&& u.name == t.name
                                    &&& u.cwd == t.cwd
                                    &&& u.cols == t.cols
                                    &&& u.rows == t.rows
                                    &&& !u.mouse_reporting
                                },
                        );
                    }
                },
                _ => {},
            }
        }
    } else {
        let (prefix, action) = crate::input::spec_handle_key(a.input.prefix, key);
        let base = with_prefix(a, prefix);
        assert(base.wf() && layouts_exact(base));
        match action {
            ActionView::NextWindow | ActionView::PreviousWindow => {
                if a.spec_active_project() is Some {
                    assert forall|i: int, j: int|
                        0 <= i < b.projects@.len() && 0 <= j < b.projects@[i].windows@.len() implies #[trigger] window_exact(
                            b.projects@[i].windows@[j],
                        ) by {
                        assert(b.projects@[i].windows == a.projects@[i].windows);
                        assert(window_exact(a.projects@[i].windows@[j]));
                    }
                }
            },
            ActionView::NextPane => {
                lemma_same_active_window_shape(
                    base,
                    b,
                    |w: WindowPage, v: WindowPage|
                        window_with_active_pane(w, v, ring_next(w.active_pane, w.panes@.len())),
                );
            },
            ActionView::PreviousPane => {
                lemma_same_active_window_shape(
                    base,
                    b,
                    |w: WindowPage, v: WindowPage|
                        window_with_active_pane(w, v, ring_previous(w.active_pane, w.panes@.len())),
                );
            },
            ActionView::ClosePane => {
                law_close_keeps_layouts_exact(base, b);
            },
            _ => {},
        }
    }
}

/// Dragging a separator puts the edge of the split's first child where the
/// pointer is: the first child gets as many cells as the pointer lies past
/// the split's start (across for a side-by-side split, down for a stacked
/// one), kept between one cell and all but one of the cells to share.
pub proof fn law_drag_puts_edge_at_pointer(direction: SplitDirection, area: Rect, col: u16, row: u16)
    requires
        split_available(direction, area) >= 2,
    ensures
        ({
            let available = split_available(direction, area);
            let offset: int = match direction {
                SplitDirection::Vertical => if col >= area.x { col - area.x } else { 0 },
                SplitDirection::Horizontal => if row >= area.y { row - area.y } else { 0 },
            };
            let wanted: int = if offset < 1 {
                1
            } else if offset > available - 1 {
                available - 1
            } else {
                offset
            };
            crate::layout::spec_split_first_size(available, spec_drag_ratio(direction, area, col, row))
                == wanted
        }),
{
    let available = split_available(direction, area);
    let ratio = spec_drag_ratio(direction, area, col, row);
    let a = available as int;
    let n = ratio.num as int;
    assert(ratio.den == available);
    assert(1 <= n < a);
    assert(a * n / a == n) by (nonlinear_arith)
        requires
            a > 0,
    ;
}

/// Moving to the next project (or window, or pane) goes one step on and
/// wraps from the last to the first; moving to the previous one goes one
/// step back and wraps from the first to the last.
pub proof fn law_ring_steps(i: usize, n: nat)
    requires
        i < n,
        n <= usize::MAX,
    ensures
        ring_next(i, n) == (if i + 1 < n { i + 1 } else { 0 }),
        ring_previous(i, n) == (if i > 0 { i - 1 } else { n - 1 }),
{
    if i + 1 < n {
        vstd::arithmetic::div_mod::lemma_small_mod((i + 1) as nat, n);
    } else {
        assert((n as int) % (n as int) == 0) by (nonlinear_arith)
            requires
                n > 0,
        ;
    }
}

/// The width of a window's tab is the width of its label, a space, its
/// number, a colon, its name and a space, and of the space after it.
pub proof fn law_tab_width_is_label(index: nat, name: Seq<char>)
    ensures
        tab_width(index, name) == (seq![' '] + crate::text::decimal_chars(index + 1) + seq![':'] + name
            + seq![' ', ' ']).len(),
{
}

/// Moving to the next project (or window, or pane) and then to the previous
/// one comes back to where it started, and the other way round.
pub proof fn law_next_then_previous(i: usize, n: nat)
    requires
        i < n,
        n <= usize::MAX,
    ensures
        ring_previous(ring_next(i, n), n) == i,
        ring_next(ring_previous(i, n), n) == i,
{
    if i + 1 < n {
        vstd::arithmetic::div_mod::lemma_small_mod((i + 1) as nat, n);
    } else {
        assert((n as int) % (n as int) == 0) by (nonlinear_arith)
            requires
                n > 0,
        ;
    }
    let p = ring_previous(i, n);
    if p + 1 < n {
        vstd::arithmetic::div_mod::lemma_small_mod((p + 1) as nat, n);
    } else {
        assert((n as int) % (n as int) == 0) by (nonlinear_arith)
            requires
                n > 0,
        ;
    }
}

} // verus!
