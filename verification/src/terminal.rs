//! A pane's terminal as the workspace sees it: its identity, name, working
//! directory and shell, the size of its screen, and whether the program in
//! it asked for mouse reports. The PTY and the screen emulator themselves
//! belong to the caller, which keeps them in step with this record.
use vstd::prelude::*;
use crate::session::SessionTab;

verus! {

/// A pane's terminal.
#[derive(Debug)]
pub struct TerminalTab {
    /// Identifies the pane's PTY and the output it produces.
    pub id: u64,
    pub name: String,
    pub cwd: String,
    pub shell: String,
    /// Columns of the pane's screen.
    pub cols: u16,
    /// Rows of the pane's screen.
    pub rows: u16,
    /// Whether the program in the pane enabled a mouse reporting mode.
    pub mouse_reporting: bool,
}

impl TerminalTab {
    /// A freshly spawned terminal of `cols` by `rows` cells, with no mouse
    /// reporting yet.
    pub fn spawn(id: u64, name: String, cwd: String, shell: String, cols: u16, rows: u16) -> (r:
        TerminalTab)
        ensures
            r.id == id,
            r.name == name,
            r.cwd == cwd,
            r.shell == shell,
            r.cols == cols,
            r.rows == rows,
            !r.mouse_reporting,
    {
        TerminalTab { id, name, cwd, shell, cols, rows, mouse_reporting: false }
    }

    /// A terminal for a saved pane: its name, directory and shell.
    pub fn from_session(id: u64, tab: SessionTab, cols: u16, rows: u16) -> (r: TerminalTab)
        ensures
            r.id == id,
            r.name == tab.name,
            r.cwd == tab.cwd,
            r.shell == tab.shell,
            r.cols == cols,
            r.rows == rows,
            !r.mouse_reporting,
    {
        Self::spawn(id, tab.name, tab.cwd, tab.shell, cols, rows)
    }

    /// A terminal running the default shell in `cwd`.
    pub fn new_default(
        id: u64,
        cwd: String,
        name: String,
        default_shell: String,
        cols: u16,
        rows: u16,
    ) -> (r: TerminalTab)
        ensures
            r.id == id,
            r.name == name,
            r.cwd == cwd,
            r.shell == default_shell,
            r.cols == cols,
            r.rows == rows,
            !r.mouse_reporting,
    {
        Self::spawn(id, name, cwd, default_shell, cols, rows)
    }

    /// Gives the screen a new size.
    pub fn resize(&mut self, cols: u16, rows: u16)
        ensures
            final(self).cols == cols,
            final(self).rows == rows,
            final(self).id == old(self).id,
            final(self).name == old(self).name,
            final(self).cwd == old(self).cwd,
            final(self).shell == old(self).shell,
            final(self).mouse_reporting == old(self).mouse_reporting,
    {
        self.cols = cols;
        self.rows = rows;
    }

    /// The screen size as `(rows, cols)`.
    pub fn screen_size(&self) -> (r: (u16, u16))
        ensures
            r == (self.rows, self.cols),
    {
        (self.rows, self.cols)
    }

    /// The saved form of the pane: its name, directory and shell.
    pub fn session_tab(&self) -> (r: SessionTab)
        ensures
            r.name == self.name,
            r.cwd == self.cwd,
            r.shell == self.shell,
    {
        SessionTab { name: self.name.clone(), cwd: self.cwd.clone(), shell: self.shell.clone() }
    }
}

/// Whether `path` is an absolute Unix path: it starts at the root `/`.
pub open spec fn is_absolute_path(path: Seq<char>) -> bool {
    path.len() > 0 && path[0] == '/'
}

/// Calls `std::path::Path::canonicalize` on `path`. Trusted: as std
/// documents, a result is the canonical, absolute form of the path, which
/// on Unix (the platforms this program runs on) starts at the root. Which
/// path it is, and whether there is one, depends on the file system and is
/// not stated.
#[verifier::external_body]
fn canonical_path(path: &str) -> (r: Option<String>)
    ensures
        r matches Some(c) ==> is_absolute_path(c@),
{
    std::path::Path::new(path).canonicalize().ok().and_then(|p| p.into_os_string().into_string().ok())
}

/// The directory to use for `path`: its canonical form when there is one,
/// else `path` as given.
pub fn canonical_or_given(path: &str, canonical: Option<String>) -> (r: String)
    ensures
        match canonical {
            Some(c) => r == c,
            None => r@ == path@,
        },
{
    match canonical {
        Some(c) => c,
        None => path.to_owned(),
    }
}

/// The canonical form of the directory `path`, or `path` itself when it
/// cannot be resolved: either way `path` as given or an absolute path.
/// Directories are held as text, so a canonical form that is not valid
/// UTF-8 is not taken either; `path` then names the same directory.
pub fn normalize_cwd(path: &str) -> (r: String)
    ensures
        r@ == path@ || is_absolute_path(r@),
{
    canonical_or_given(path, canonical_path(path))
}

} // verus!
