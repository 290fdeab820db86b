//! Screen geometry shared by rendering and mouse hit testing: the root areas
//! of the screen, the areas of the split tree, and which pane, title or
//! separator lies under the pointer. Areas are split by ratatui's layout
//! solver.
use vstd::prelude::*;
use ratatui::layout as tui;
use ratatui::widgets as tui_widgets;
use crate::pane_tree::{
    lemma_contains_concat, lemma_leaf_pos, lemma_pane_sizes_shape, PaneNode, SplitDirection, SplitRatio,
    WhichChild,
};

verus! {

/// Width of the project sidebar on the left of the screen.
pub const SIDEBAR_WIDTH: u16 = 30;

/// Rows of the sidebar header (title and version) above the project list.
pub const SIDEBAR_HEADER_HEIGHT: u16 = 2;

/// A rectangle of terminal cells.
#[derive(Debug, Clone, Copy, PartialEq, Eq)]
pub struct Rect {
    pub x: u16,
    pub y: u16,
    pub width: u16,
    pub height: u16,
}

/// The axis along which an area is cut into pieces.
#[derive(Debug, Clone, Copy, PartialEq, Eq)]
pub enum Direction {
    /// Pieces side by side.
    Horizontal,
    /// Pieces one above the other.
    Vertical,
}

/// The split axis of an area cut by a split tree node: a vertical split puts
/// its children side by side.
pub open spec fn axis(direction: SplitDirection) -> Direction {
    match direction {
        SplitDirection::Vertical => Direction::Horizontal,
        SplitDirection::Horizontal => Direction::Vertical,
    }
}

/// The cells that `area` covers along `direction`, up to the edge of the
/// coordinate range.
pub open spec fn span(area: Rect, direction: Direction) -> u16 {
    match direction {
        Direction::Horizontal => (area.x.saturating_add(area.width) - area.x) as u16,
        Direction::Vertical => (area.y.saturating_add(area.height) - area.y) as u16,
    }
}

/// The cells that `area` covers along `direction` (see `span`).
pub fn span_of(area: Rect, direction: Direction) -> (r: u16)
    ensures
        r == span(area, direction),
{
    match direction {
        Direction::Horizontal => area.x.saturating_add(area.width) - area.x,
        Direction::Vertical => area.y.saturating_add(area.height) - area.y,
    }
}

/// The sum of `lengths`.
pub open spec fn total(lengths: Seq<u16>) -> int
    decreases lengths.len(),
{
    if lengths.len() == 0 {
        0
    } else {
        total(lengths.drop_last()) + lengths.last()
    }
}

/// The piece of `area` that starts `offset` cells in along `direction` and
/// is `length` cells long; across `direction` it covers all of `area`.
pub open spec fn piece(area: Rect, direction: Direction, offset: int, length: u16) -> Rect {
    match direction {
        Direction::Horizontal => Rect {
            x: (area.x + offset) as u16,
            y: area.y,
            width: length,
            height: area.height,
        },
        Direction::Vertical => Rect {
            x: area.x,
            y: (area.y + offset) as u16,
            width: area.width,
            height: length,
        },
    }
}

/// `area` cut along `direction` into pieces of the given lengths, one after
/// the other from its start.
pub open spec fn tiles(area: Rect, direction: Direction, lengths: Seq<u16>) -> Seq<Rect> {
    Seq::new(lengths.len(), |i: int| piece(area, direction, total(lengths.take(i)), lengths[i]))
}

/// Calls `ratatui::layout::Layout::split` (default flex, no margin, no
/// spacing) with one `Constraint::Length` per length. Trusted: as the
/// source of `Layout::split` shows, the solver keeps every piece inside the
/// area and in order (required constraints), keeps the first spacer empty
/// and the spacers between pieces empty (near-required), and holds each
/// `Length` at a strength above every remaining constraint; when the lengths
/// add up to exactly what the area covers, the only solution that meets
/// these is the pieces of those lengths one after the other, which it
/// returns (positions are whole cells, so rounding changes nothing).
#[verifier::external_body]
fn split_area(area: Rect, direction: Direction, lengths: &Vec<u16>) -> (r: Vec<Rect>)
    requires
        total(lengths@) == span(area, direction),
    ensures
        r@ == tiles(area, direction, lengths@),
{
    let dir = match direction {
        Direction::Horizontal => tui::Direction::Horizontal,
        Direction::Vertical => tui::Direction::Vertical,
    };
    let cs = lengths.iter().map(|n| tui::Constraint::Length(*n));
    let a = tui::Rect { x: area.x, y: area.y, width: area.width, height: area.height };
    let rects = tui::Layout::default().direction(dir).constraints(cs).split(a);
    rects.iter().map(|r| Rect { x: r.x, y: r.y, width: r.width, height: r.height }).collect()
}

/// The pieces of two lengths.
proof fn lemma_tiles2(area: Rect, direction: Direction, a: u16, b: u16)
    ensures
        total(seq![a, b]) == a + b,
        tiles(area, direction, seq![a, b]) == seq![
            piece(area, direction, 0, a),
            piece(area, direction, a as int, b),
        ],
{
    let s = seq![a, b];
    assert(s.take(0) =~= Seq::<u16>::empty());
    assert(s.take(1) =~= seq![a]);
    assert(s.drop_last() =~= seq![a]);
    assert(seq![a].drop_last() =~= Seq::<u16>::empty());
    assert(total(Seq::<u16>::empty()) == 0);
    assert(total(seq![a]) == a);
    assert(total(s) == a + b);
    assert(tiles(area, direction, s) =~= seq![
        piece(area, direction, 0, a),
        piece(area, direction, a as int, b),
    ]);
}

/// The pieces of three lengths.
proof fn lemma_tiles3(area: Rect, direction: Direction, a: u16, b: u16, c: u16)
    ensures
        total(seq![a, b, c]) == a + b + c,
        tiles(area, direction, seq![a, b, c]) == seq![
            piece(area, direction, 0, a),
            piece(area, direction, a as int, b),
            piece(area, direction, a + b, c),
        ],
{
    let s = seq![a, b, c];
    assert(s.take(0) =~= Seq::<u16>::empty());
    assert(s.take(1) =~= seq![a]);
    assert(s.take(2) =~= seq![a, b]);
    assert(s.drop_last() =~= seq![a, b]);
    assert(seq![a, b].drop_last() =~= seq![a]);
    assert(seq![a].drop_last() =~= Seq::<u16>::empty());
    assert(total(Seq::<u16>::empty()) == 0);
    assert(total(seq![a]) == a);
    assert(total(seq![a, b]) == a + b);
    assert(total(s) == a + b + c);
    assert(tiles(area, direction, s) =~= seq![
        piece(area, direction, 0, a),
        piece(area, direction, a as int, b),
        piece(area, direction, a + b, c),
    ]);
}

fn two_lengths(a: u16, b: u16) -> (r: Vec<u16>)
    ensures
        r@ == seq![a, b],
{
    let mut v = Vec::new();
    v.push(a);
    v.push(b);
    assert(v@ =~= seq![a, b]);
    v
}

fn three_lengths(a: u16, b: u16, c: u16) -> (r: Vec<u16>)
    ensures
        r@ == seq![a, b, c],
{
    let mut v = Vec::new();
    v.push(a);
    v.push(b);
    v.push(c);
    assert(v@ =~= seq![a, b, c]);
    v
}

/// The cells that a fixed part of `len` cells gets out of `size`: all it
/// asks for, as long as at least one cell is left for the other part.
pub open spec fn fixed_share(size: u16, len: u16) -> u16 {
    let room = size.saturating_sub(1);
    if len < room {
        len
    } else {
        room
    }
}

fn fixed_share_of(size: u16, len: u16) -> (r: u16)
    ensures
        r == fixed_share(size, len),
{
    let room = size.saturating_sub(1);
    if len < room {
        len
    } else {
        room
    }
}

/// `area` cut along `direction` into a fixed part of `len` cells first (see
/// `fixed_share`) and the rest.
pub open spec fn fixed_then_rest(area: Rect, direction: Direction, len: u16) -> Seq<Rect> {
    let size = span(area, direction);
    let f = fixed_share(size, len);
    tiles(area, direction, seq![f, (size - f) as u16])
}

/// `area` cut along `direction` into the rest first and a fixed part of
/// `len` cells last (see `fixed_share`).
pub open spec fn rest_then_fixed(area: Rect, direction: Direction, len: u16) -> Seq<Rect> {
    let size = span(area, direction);
    let f = fixed_share(size, len);
    tiles(area, direction, seq![(size - f) as u16, f])
}

fn split_fixed_then_rest(area: Rect, direction: Direction, len: u16) -> (r: Vec<Rect>)
    ensures
        r@ == fixed_then_rest(area, direction, len),
        r@.len() == 2,
{
    let size = span_of(area, direction);
    let f = fixed_share_of(size, len);
    proof {
        lemma_tiles2(area, direction, f, (size - f) as u16);
    }
    split_area(area, direction, &two_lengths(f, size - f))
}

fn split_rest_then_fixed(area: Rect, direction: Direction, len: u16) -> (r: Vec<Rect>)
    ensures
        r@ == rest_then_fixed(area, direction, len),
        r@.len() == 2,
{
    let size = span_of(area, direction);
    let f = fixed_share_of(size, len);
    proof {
        lemma_tiles2(area, direction, (size - f) as u16, f);
    }
    split_area(area, direction, &two_lengths(size - f, f))
}

/// The inner area of the sidebar's project list block, which has a title at
/// the top and a border on the right.
pub open spec fn spec_projects_inner(area: Rect) -> Rect {
    let bottom = area.y.saturating_add(area.height);
    let y1 = area.y.saturating_add(1);
    Rect {
        x: area.x,
        y: if y1 < bottom { y1 } else { bottom },
        width: area.width.saturating_sub(1),
        height: area.height.saturating_sub(1),
    }
}

/// Calls `ratatui::widgets::Block::inner` on a block with a title and a right
/// border. Trusted: as the source of `Block::inner` shows, the title at the
/// top moves the top edge down one row (within the area) and the right
/// border takes one column; there is no padding.
#[verifier::external_body]
fn projects_block_inner(area: Rect) -> (r: Rect)
    ensures
        r == spec_projects_inner(area),
{
    let block = tui_widgets::Block::default().title(" projects ").borders(
        tui_widgets::Borders::RIGHT,
    );
    let inner = block.inner(tui::Rect { x: area.x, y: area.y, width: area.width, height: area.height });
    Rect { x: inner.x, y: inner.y, width: inner.width, height: inner.height }
}

impl Rect {
    /// A rectangle at `(x, y)`, its size clamped so that its right and
    /// bottom edges do not pass `u16::MAX`.
    pub fn new(x: u16, y: u16, width: u16, height: u16) -> (r: Rect)
        ensures
            r.x == x,
            r.y == y,
            r.width == (if width > u16::MAX - x { (u16::MAX - x) as u16 } else { width }),
            r.height == (if height > u16::MAX - y { (u16::MAX - y) as u16 } else { height }),
    {
        let max_width = u16::MAX - x;
        let max_height = u16::MAX - y;
        let width = if width > max_width { max_width } else { width };
        let height = if height > max_height { max_height } else { height };
        Rect { x, y, width, height }
    }
}

/// Whether the cell `(col, row)` lies inside `area`.
pub open spec fn spec_pointer_in(area: Rect, col: u16, row: u16) -> bool {
    &&& col >= area.x
    &&& col < area.x.saturating_add(area.width)
    &&& row >= area.y
    &&& row < area.y.saturating_add(area.height)
}

/// Whether the cell `(col, row)` lies inside `area`.
pub fn pointer_in_rect(area: Rect, col: u16, row: u16) -> (r: bool)
    ensures
        r == spec_pointer_in(area, col, row),
{
    col >= area.x && col < area.x.saturating_add(area.width) && row >= area.y && row
        < area.y.saturating_add(area.height)
}

/// The project row under the pointer: its offset from the top of the
/// project list, when the pointer is inside the list and there is a
/// project at that offset.
pub open spec fn spec_hit_project_row(projects_inner: Rect, col: u16, row: u16, project_count: nat) -> Option<usize> {
    if project_count == 0 || !spec_pointer_in(projects_inner, col, row) {
        None
    } else if ((row - projects_inner.y) as int) < project_count {
        Some((row - projects_inner.y) as usize)
    } else {
        None
    }
}

/// The project row under the pointer (see `spec_hit_project_row`).
pub fn hit_project_row(projects_inner: Rect, col: u16, row: u16, project_count: usize) -> (r:
    Option<usize>)
    ensures
        r == spec_hit_project_row(projects_inner, col, row, project_count as nat),
        r matches Some(i) ==> i < project_count,
{
    if project_count == 0 || !pointer_in_rect(projects_inner, col, row) {
        return None;
    }
    let dy = (row - projects_inner.y) as usize;
    if dy < project_count {
        Some(dy)
    } else {
        None
    }
}

/// The areas of the screen.
#[derive(Debug, Clone, Copy, PartialEq, Eq)]
pub struct RootAreas {
    /// The sidebar on the left.
    pub sidebar: Rect,
    /// The project list inside the sidebar.
    pub projects_inner: Rect,
    /// The active project's workspace: window bar and pane stack.
    pub workspace: Rect,
    /// The bar of window tabs at the top of the workspace.
    pub window_tab_bar: Rect,
    /// The panes of the active window.
    pub pane_stack: Rect,
    /// The status line at the bottom.
    pub status: Rect,
}

/// The screen cut into the body and, below it, the status line.
pub open spec fn root_vertical(area: Rect) -> Seq<Rect> {
    rest_then_fixed(area, Direction::Vertical, 1)
}

/// The body cut into the sidebar and, right of it, the workspace.
pub open spec fn root_body(area: Rect) -> Seq<Rect> {
    fixed_then_rest(root_vertical(area)[0], Direction::Horizontal, SIDEBAR_WIDTH)
}

/// The sidebar cut into its header and, below it, the project list block.
pub open spec fn root_sidebar_chunks(area: Rect) -> Seq<Rect> {
    fixed_then_rest(root_body(area)[0], Direction::Vertical, SIDEBAR_HEADER_HEIGHT)
}

/// The workspace cut into the window bar and, below it, the pane stack.
pub open spec fn root_workspace_chunks(area: Rect) -> Seq<Rect> {
    fixed_then_rest(root_body(area)[1], Direction::Vertical, 1)
}

/// The areas of a screen of size `area`.
pub open spec fn spec_root_areas(area: Rect) -> RootAreas {
    RootAreas {
        sidebar: root_body(area)[0],
        projects_inner: spec_projects_inner(root_sidebar_chunks(area)[1]),
        workspace: root_body(area)[1],
        window_tab_bar: root_workspace_chunks(area)[0],
        pane_stack: root_workspace_chunks(area)[1],
        status: root_vertical(area)[1],
    }
}

/// Cuts the screen into the status line at the bottom and, above it, the
/// sidebar (header and project list) and the workspace (window bar and
/// pane stack). Each fixed part (status line, sidebar, header, window bar)
/// gets its size as long as a cell is left for the part beside it.
pub fn compute_root_areas(area: Rect) -> (r: RootAreas)
    ensures
        r == spec_root_areas(area),
{
    let vertical = split_rest_then_fixed(area, Direction::Vertical, 1);
    let body = split_fixed_then_rest(vertical[0], Direction::Horizontal, SIDEBAR_WIDTH);
    let sidebar_chunks = split_fixed_then_rest(body[0], Direction::Vertical, SIDEBAR_HEADER_HEIGHT);
    let workspace_chunks = split_fixed_then_rest(body[1], Direction::Vertical, 1);
    let projects_inner = projects_block_inner(sidebar_chunks[1]);
    RootAreas {
        sidebar: body[0],
        projects_inner,
        workspace: body[1],
        window_tab_bar: workspace_chunks[0],
        pane_stack: workspace_chunks[1],
        status: vertical[1],
    }
}

/// On a screen whose top-left corner is the origin, the project list lies
/// inside the sidebar, and the pane stack lies right of the sidebar, apart
/// from it.
pub proof fn law_root_areas_nest(width: u16, height: u16, col: u16, row: u16)
    ensures
        ({
            let root = spec_root_areas(Rect { x: 0, y: 0, width, height });
            &&& spec_pointer_in(root.projects_inner, col, row) ==> spec_pointer_in(root.sidebar, col, row)
            &&& spec_pointer_in(root.pane_stack, col, row) ==> !spec_pointer_in(root.sidebar, col, row)
        }),
{
    let area = Rect { x: 0, y: 0, width, height };
    let v = span(area, Direction::Vertical);
    let status = fixed_share(v, 1);
    lemma_tiles2(area, Direction::Vertical, (v - status) as u16, status);
    let body = root_vertical(area)[0];
    let hw = span(body, Direction::Horizontal);
    let side = fixed_share(hw, SIDEBAR_WIDTH);
    lemma_tiles2(body, Direction::Horizontal, side, (hw - side) as u16);
    let sidebar = root_body(area)[0];
    let sh = span(sidebar, Direction::Vertical);
    let header = fixed_share(sh, SIDEBAR_HEADER_HEIGHT);
    lemma_tiles2(sidebar, Direction::Vertical, header, (sh - header) as u16);
    let workspace = root_body(area)[1];
    let wh = span(workspace, Direction::Vertical);
    let bar = fixed_share(wh, 1);
    lemma_tiles2(workspace, Direction::Vertical, bar, (wh - bar) as u16);
}

/// On a screen at the origin that is wider than the sidebar and at least
/// three rows high, the sidebar takes the left `SIDEBAR_WIDTH` columns and
/// all rows but the last, the status line is the last row across the whole
/// screen, the window bar is the top row right of the sidebar, the pane
/// stack is everything below it, and the project list starts below the
/// sidebar header and its title row.
pub proof fn law_root_area_sizes(width: u16, height: u16)
    requires
        width > SIDEBAR_WIDTH,
        height >= 3,
    ensures
        ({
            let root = spec_root_areas(Rect { x: 0, y: 0, width, height });
            &&& root.status == Rect { x: 0, y: (height - 1) as u16, width, height: 1 }
            &&& root.sidebar == Rect { x: 0, y: 0, width: SIDEBAR_WIDTH, height: (height - 1) as u16 }
            &&& root.window_tab_bar == Rect {
                x: SIDEBAR_WIDTH,
                y: 0,
                width: (width - SIDEBAR_WIDTH) as u16,
                height: 1,
            }
            &&& root.pane_stack == Rect {
                x: SIDEBAR_WIDTH,
                y: 1,
                width: (width - SIDEBAR_WIDTH) as u16,
                height: (height - 2) as u16,
            }
            &&& root.projects_inner.x == 0
            &&& root.projects_inner.y == (if height - 1 > SIDEBAR_HEADER_HEIGHT + 1 {
                SIDEBAR_HEADER_HEIGHT + 1
            } else {
                height - 1
            })
        }),
{
    let area = Rect { x: 0, y: 0, width, height };
    let v = span(area, Direction::Vertical);
    let status = fixed_share(v, 1);
    lemma_tiles2(area, Direction::Vertical, (v - status) as u16, status);
    let body = root_vertical(area)[0];
    let hw = span(body, Direction::Horizontal);
    let side = fixed_share(hw, SIDEBAR_WIDTH);
    lemma_tiles2(body, Direction::Horizontal, side, (hw - side) as u16);
    let sidebar = root_body(area)[0];
    let sh = span(sidebar, Direction::Vertical);
    let header = fixed_share(sh, SIDEBAR_HEADER_HEIGHT);
    lemma_tiles2(sidebar, Direction::Vertical, header, (sh - header) as u16);
    let workspace = root_body(area)[1];
    let wh = span(workspace, Direction::Vertical);
    let bar = fixed_share(wh, 1);
    lemma_tiles2(workspace, Direction::Vertical, bar, (wh - bar) as u16);
}

/// Project `i` is drawn on the `i`-th row of the project list, and a press
/// anywhere on that row hits it, when there is such a project and row.
pub proof fn law_project_rows(projects_inner: Rect, col: u16, i: usize, project_count: nat)
    requires
        i < project_count,
        (i as int) < projects_inner.height,
        projects_inner.y + projects_inner.height <= u16::MAX,
        projects_inner.x <= col,
        col < projects_inner.x + projects_inner.width,
        projects_inner.x + projects_inner.width <= u16::MAX,
    ensures
        spec_hit_project_row(projects_inner, col, (projects_inner.y + i) as u16, project_count) == Some(i),
{
}

/// The first child of a split gets the ratio's share of the cells rounded
/// down: `first / available` is at most `num / den` and within one cell of
/// it, whenever that share is at least one cell and at most all of them.
pub proof fn law_first_size_follows_ratio(available: u16, ratio: SplitRatio)
    requires
        ratio.den > 0,
        1 <= (available as int) * (ratio.num as int) / (ratio.den as int) <= available,
    ensures
        ({
            let first = spec_split_first_size(available, ratio) as int;
            &&& first * ratio.den <= available * ratio.num
            &&& available * ratio.num < (first + 1) * ratio.den
        }),
{
    let a = available as int;
    let n = ratio.num as int;
    let d = ratio.den as int;
    let q = a * n / d;
    assert(q * d <= a * n && a * n < (q + 1) * d) by (nonlinear_arith)
        requires
            d > 0,
            q == a * n / d,
    ;
}

/// The size of the first child of a split over `available` cells:
/// `available * num / den` rounded down, at least one cell and at most
/// `available`; an even split when the ratio has no denominator.
pub open spec fn spec_split_first_size(available: u16, ratio: SplitRatio) -> u16 {
    let raw: u16 = if ratio.den == 0 {
        available / 2
    } else {
        let share = (available as int) * (ratio.num as int) / (ratio.den as int);
        if share > available as int {
            available
        } else {
            share as u16
        }
    };
    if raw < 1 {
        1
    } else {
        raw
    }
}

/// The size of the first child of a split over `available` cells.
pub fn split_first_size(available: u16, ratio: SplitRatio) -> (r: u16)
    ensures
        r == spec_split_first_size(available, ratio),
        1 <= r,
        r <= available || available == 0,
{
    let raw: u16 = if ratio.den == 0 {
        available / 2
    } else {
        let a: u32 = available as u32;
        let n: u32 = ratio.num as u32;
        assert(a * n <= 0xFFFF * 0xFFFF) by (nonlinear_arith)
            requires
                a <= 0xFFFF,
                n <= 0xFFFF,
        ;
        let share: u32 = a * n / (ratio.den as u32);
        if share > available as u32 {
            available
        } else {
            share as u16
        }
    };
    if raw < 1 {
        1
    } else {
        raw
    }
}

/// Cells taken by the separator of a split over `area`: one when the area
/// covers more than two cells along the split, else none.
pub open spec fn separator_len(direction: SplitDirection, area: Rect) -> u16 {
    if span(area, axis(direction)) > 2 {
        1
    } else {
        0
    }
}

/// Cells shared by the two children of a split over `area`.
pub open spec fn split_available(direction: SplitDirection, area: Rect) -> u16 {
    (span(area, axis(direction)) - separator_len(direction, area)) as u16
}

/// The lengths of the first child, the separator and the second child: the
/// first child gets its share (see `spec_split_first_size`) of the cells
/// available, the second child the rest.
pub open spec fn split_lengths(direction: SplitDirection, ratio: SplitRatio, area: Rect) -> (
    u16,
    u16,
    u16,
) {
    let available = split_available(direction, area);
    let first = if available == 0 { 0 } else { spec_split_first_size(available, ratio) };
    (first, separator_len(direction, area), (available - first) as u16)
}

/// The three areas of a split: first child, separator, second child.
pub open spec fn spec_split_chunks(direction: SplitDirection, ratio: SplitRatio, area: Rect) -> Seq<
    Rect,
> {
    let (first, sep, second) = split_lengths(direction, ratio, area);
    tiles(area, axis(direction), seq![first, sep, second])
}

/// The separator length of a split over `area` (see `separator_len`).
pub fn separator_len_of(direction: SplitDirection, area: Rect) -> (r: u16)
    ensures
        r == separator_len(direction, area),
{
    let size = match direction {
        SplitDirection::Vertical => span_of(area, Direction::Horizontal),
        SplitDirection::Horizontal => span_of(area, Direction::Vertical),
    };
    if size > 2 {
        1
    } else {
        0
    }
}

/// The three areas of a split: first child, separator, second child.
pub fn split_chunks(direction: SplitDirection, ratio: SplitRatio, area: Rect) -> (r: Vec<Rect>)
    ensures
        r@ == spec_split_chunks(direction, ratio, area),
        r@.len() == 3,
{
    let dir = match direction {
        SplitDirection::Vertical => Direction::Horizontal,
        SplitDirection::Horizontal => Direction::Vertical,
    };
    let size = span_of(area, dir);
    let sep = separator_len_of(direction, area);
    let available = size - sep;
    let first = if available == 0 { 0 } else { split_first_size(available, ratio) };
    let second = available - first;
    proof {
        lemma_tiles3(area, dir, first, sep, second);
    }
    split_area(area, dir, &three_lengths(first, sep, second))
}

/// What lies under the pointer in the pane stack.
#[derive(Debug, Clone, Copy, PartialEq, Eq)]
pub enum PaneHit {
    /// The title row of a pane.
    Title(usize),
    /// The terminal of a pane, at a cell relative to its top-left corner.
    Terminal { pane: usize, local_col: u16, local_row: u16 },
}

/// The title row and terminal area of a pane drawn in `area`.
pub open spec fn leaf_chunks(area: Rect) -> Seq<Rect> {
    fixed_then_rest(area, Direction::Vertical, 1)
}

/// What of the pane `pane_index`, drawn in `area`, lies under the pointer.
pub open spec fn spec_hit_leaf(pane_index: usize, area: Rect, col: u16, row: u16) -> Option<
    PaneHit,
> {
    let title = leaf_chunks(area)[0];
    let term = leaf_chunks(area)[1];
    if spec_pointer_in(title, col, row) {
        Some(PaneHit::Title(pane_index))
    } else if spec_pointer_in(term, col, row) {
        Some(
            PaneHit::Terminal {
                pane: pane_index,
                local_col: col.saturating_sub(term.x),
                local_row: row.saturating_sub(term.y),
            },
        )
    } else {
        None
    }
}

/// What lies under the pointer when `node` is drawn in `area` for a window
/// of `pane_count` panes; the first child is tried before the second, and
/// leaves that name no pane are never hit.
pub open spec fn spec_hit_node(pane_count: nat, node: PaneNode, area: Rect, col: u16, row: u16) -> Option<
    PaneHit,
>
    decreases node,
{
    match node {
        PaneNode::Leaf(index) => {
            if index >= pane_count {
                None
            } else {
                spec_hit_leaf(index, area, col, row)
            }
        },
        PaneNode::Split { direction, ratio, first, second } => {
            let c = spec_split_chunks(direction, ratio, area);
            match spec_hit_node(pane_count, *first, c[0], col, row) {
                Some(h) => Some(h),
                None => spec_hit_node(pane_count, *second, c[2], col, row),
            }
        },
    }
}

/// The pane that a hit names.
pub open spec fn hit_pane(h: PaneHit) -> usize {
    match h {
        PaneHit::Title(i) => i,
        PaneHit::Terminal { pane, .. } => pane,
    }
}

/// The title row and the terminal area of a pane drawn in `area` (see
/// `leaf_chunks`).
pub fn leaf_areas(area: Rect) -> (r: Vec<Rect>)
    ensures
        r@ == leaf_chunks(area),
        r@.len() == 2,
{
    split_fixed_then_rest(area, Direction::Vertical, 1)
}

fn hit_pane_leaf(pane_index: usize, area: Rect, col: u16, row: u16) -> (r: Option<PaneHit>)
    ensures
        r == spec_hit_leaf(pane_index, area, col, row),
{
    let chunks = split_fixed_then_rest(area, Direction::Vertical, 1);
    let title_rect = chunks[0];
    let term_rect = chunks[1];
    if pointer_in_rect(title_rect, col, row) {
        return Some(PaneHit::Title(pane_index));
    }
    if pointer_in_rect(term_rect, col, row) {
        let local_col = col.saturating_sub(term_rect.x);
        let local_row = row.saturating_sub(term_rect.y);
        return Some(PaneHit::Terminal { pane: pane_index, local_col, local_row });
    }
    None
}

fn hit_pane_node(pane_count: usize, node: &PaneNode, area: Rect, col: u16, row: u16) -> (r: Option<
    PaneHit,
>)
    ensures
        r == spec_hit_node(pane_count as nat, *node, area, col, row),
        r matches Some(h) ==> hit_pane(h) < pane_count,
    decreases node,
{
    match node {
        PaneNode::Leaf(index) => {
            if *index >= pane_count {
                return None;
            }
            hit_pane_leaf(*index, area, col, row)
        },
        PaneNode::Split { direction, ratio, first, second } => {
            let chunks = split_chunks(*direction, *ratio, area);
            match hit_pane_node(pane_count, &**first, chunks[0], col, row) {
                Some(h) => Some(h),
                None => hit_pane_node(pane_count, &**second, chunks[2], col, row),
            }
        },
    }
}

/// What lies under the pointer in the pane stack of a window with
/// `pane_count` panes laid out by `layout`.
pub open spec fn spec_hit_test_pane_stack(
    pane_count: nat,
    layout: PaneNode,
    pane_stack: Rect,
    col: u16,
    row: u16,
) -> Option<PaneHit> {
    if pane_count == 0 || !spec_pointer_in(pane_stack, col, row) {
        None
    } else {
        spec_hit_node(pane_count, layout, pane_stack, col, row)
    }
}

/// What lies under the pointer in the pane stack: a pane's title row, a
/// cell of a pane's terminal, or nothing.
pub fn hit_test_pane_stack(
    pane_count: usize,
    layout: &PaneNode,
    pane_stack: Rect,
    col: u16,
    row: u16,
) -> (r: Option<PaneHit>)
    ensures
        r == spec_hit_test_pane_stack(pane_count as nat, *layout, pane_stack, col, row),
        r matches Some(h) ==> hit_pane(h) < pane_count,
{
    if pane_count == 0 || !pointer_in_rect(pane_stack, col, row) {
        return None;
    }
    hit_pane_node(pane_count, layout, pane_stack, col, row)
}

/// The terminal area of the pane `target_pane` when `node` is drawn in
/// `area`, if a leaf of `node` names it and it is one of the window's panes.
pub open spec fn spec_pane_terminal_rect(
    pane_count: nat,
    node: PaneNode,
    area: Rect,
    target_pane: usize,
) -> Option<Rect>
    decreases node,
{
    match node {
        PaneNode::Leaf(index) => {
            if index != target_pane || index >= pane_count {
                None
            } else {
                Some(leaf_chunks(area)[1])
            }
        },
        PaneNode::Split { direction, ratio, first, second } => {
            let c = spec_split_chunks(direction, ratio, area);
            match spec_pane_terminal_rect(pane_count, *first, c[0], target_pane) {
                Some(r) => Some(r),
                None => spec_pane_terminal_rect(pane_count, *second, c[2], target_pane),
            }
        },
    }
}

/// The terminal area of the pane `target_pane` (see `spec_pane_terminal_rect`).
pub fn pane_terminal_rect(pane_count: usize, node: &PaneNode, area: Rect, target_pane: usize) -> (r:
    Option<Rect>)
    ensures
        r == spec_pane_terminal_rect(pane_count as nat, *node, area, target_pane),
    decreases node,
{
    match node {
        PaneNode::Leaf(index) => {
            if *index != target_pane || *index >= pane_count {
                return None;
            }
            let chunks = split_fixed_then_rest(area, Direction::Vertical, 1);
            Some(chunks[1])
        },
        PaneNode::Split { direction, ratio, first, second } => {
            let chunks = split_chunks(*direction, *ratio, area);
            match pane_terminal_rect(pane_count, &**first, chunks[0], target_pane) {
                Some(r) => Some(r),
                None => pane_terminal_rect(pane_count, &**second, chunks[2], target_pane),
            }
        },
    }
}

/// A separator under the pointer: the path from the root to its split, the
/// split's direction and the area the split covers.
#[derive(Debug, PartialEq, Eq)]
pub struct SeparatorHit {
    pub path: Vec<WhichChild>,
    pub direction: SplitDirection,
    pub area: Rect,
}

/// The separator under the pointer when `node` is drawn in `area`: the
/// separator of this split when the split has one and the pointer is on it,
/// else a separator inside the child under the pointer.
pub open spec fn spec_hit_separator(node: PaneNode, area: Rect, col: u16, row: u16) -> Option<
    (Seq<WhichChild>, SplitDirection, Rect),
>
    decreases node,
{
    match node {
        PaneNode::Leaf(_) => None,
        PaneNode::Split { direction, ratio, first, second } => {
            let c = spec_split_chunks(direction, ratio, area);
            if separator_len(direction, area) == 1 && spec_pointer_in(c[1], col, row) {
                Some((Seq::empty(), direction, area))
            } else if spec_pointer_in(c[0], col, row) {
                match spec_hit_separator(*first, c[0], col, row) {
                    Some(h) => Some((seq![WhichChild::First] + h.0, h.1, h.2)),
                    None => None,
                }
            } else if spec_pointer_in(c[2], col, row) {
                match spec_hit_separator(*second, c[2], col, row) {
                    Some(h) => Some((seq![WhichChild::Second] + h.0, h.1, h.2)),
                    None => None,
                }
            } else {
                None
            }
        },
    }
}

/// The separator under the pointer (see `spec_hit_separator`). A separator
/// is only ever found on a split with at least two cells to share.
pub fn hit_separator(node: &PaneNode, area: Rect, col: u16, row: u16) -> (r: Option<SeparatorHit>)
    ensures
        match spec_hit_separator(*node, area, col, row) {
            Some(h) => r matches Some(s) && s.path@ == h.0 && s.direction == h.1 && s.area == h.2,
            None => r is None,
        },
        r matches Some(s) ==> split_available(s.direction, s.area) >= 2,
    decreases node,
{
    match node {
        PaneNode::Leaf(_) => None,
        PaneNode::Split { direction, ratio, first, second } => {
            let chunks = split_chunks(*direction, *ratio, area);
            let sep = separator_len_of(*direction, area);
            if sep == 1 && pointer_in_rect(chunks[1], col, row) {
                return Some(SeparatorHit { path: Vec::new(), direction: *direction, area });
            }
            if pointer_in_rect(chunks[0], col, row) {
                match hit_separator(&**first, chunks[0], col, row) {
                    Some(h) => {
                        let mut path = h.path;
                        path.insert(0, WhichChild::First);
                        assert(path@ =~= seq![WhichChild::First] + h.path@);
                        Some(SeparatorHit { path, direction: h.direction, area: h.area })
                    },
                    None => None,
                }
            } else if pointer_in_rect(chunks[2], col, row) {
                match hit_separator(&**second, chunks[2], col, row) {
                    Some(h) => {
                        let mut path = h.path;
                        path.insert(0, WhichChild::Second);
                        assert(path@ =~= seq![WhichChild::Second] + h.path@);
                        Some(SeparatorHit { path, direction: h.direction, area: h.area })
                    },
                    None => None,
                }
            } else {
                None
            }
        },
    }
}


/// A hit names a pane that one of the tree's leaves holds.
proof fn lemma_hit_in_leaves(pane_count: nat, node: PaneNode, area: Rect, col: u16, row: u16)
    ensures
        spec_hit_node(pane_count, node, area, col, row) matches Some(h) ==> node.leaves().contains(
            hit_pane(h),
        ),
    decreases node,
{
    match node {
        PaneNode::Leaf(index) => {
            assert(node.leaves()[0] == index);
        },
        PaneNode::Split { direction, ratio, first, second } => {
            let c = spec_split_chunks(direction, ratio, area);
            lemma_hit_in_leaves(pane_count, *first, c[0], col, row);
            lemma_hit_in_leaves(pane_count, *second, c[2], col, row);
            if let Some(h) = spec_hit_node(pane_count, node, area, col, row) {
                lemma_contains_concat(first.leaves(), second.leaves(), hit_pane(h));
            }
        },
    }
}

/// A pane that has a terminal area is held by one of the tree's leaves.
proof fn lemma_terminal_rect_in_leaves(pane_count: nat, node: PaneNode, area: Rect, target: usize)
    ensures
        spec_pane_terminal_rect(pane_count, node, area, target) is Some ==> node.leaves().contains(
            target,
        ),
    decreases node,
{
    match node {
        PaneNode::Leaf(index) => {
            assert(node.leaves()[0] == index);
        },
        PaneNode::Split { direction, ratio, first, second } => {
            let c = spec_split_chunks(direction, ratio, area);
            lemma_terminal_rect_in_leaves(pane_count, *first, c[0], target);
            lemma_terminal_rect_in_leaves(pane_count, *second, c[2], target);
            lemma_contains_concat(first.leaves(), second.leaves(), target);
        },
    }
}

/// `law_hit_agrees_with_terminal_rect`, for any subtree.
proof fn lemma_hit_node_agrees(
    pane_count: nat,
    node: PaneNode,
    area: Rect,
    col: u16,
    row: u16,
)
    requires
        node.leaves().no_duplicates(),
    ensures
        spec_hit_node(pane_count, node, area, col, row) matches Some(
            PaneHit::Terminal { pane, local_col, local_row },
        ) ==> spec_pane_terminal_rect(pane_count, node, area, pane) matches Some(t) && spec_pointer_in(
            t,
            col,
            row,
        ) && local_col == col.saturating_sub(t.x) && local_row == row.saturating_sub(t.y),
    decreases node,
{
    match node {
        PaneNode::Leaf(index) => {},
        PaneNode::Split { direction, ratio, first, second } => {
            let c = spec_split_chunks(direction, ratio, area);
            let fl = first.leaves();
            let sl = second.leaves();
            assert(fl.no_duplicates() && sl.no_duplicates()) by {
                assert forall|i: int, j: int| 0 <= i < j < fl.len() implies fl[i] != fl[j] by {
                    assert((fl + sl)[i] == fl[i] && (fl + sl)[j] == fl[j]);
                }
                assert forall|i: int, j: int| 0 <= i < j < sl.len() implies sl[i] != sl[j] by {
                    assert((fl + sl)[fl.len() + i] == sl[i] && (fl + sl)[fl.len() + j] == sl[j]);
                }
            }
            lemma_hit_node_agrees(pane_count, *first, c[0], col, row);
            lemma_hit_node_agrees(pane_count, *second, c[2], col, row);
            match spec_hit_node(pane_count, *first, c[0], col, row) {
                Some(h) => {},
                None => {
                    if let Some(PaneHit::Terminal { pane, .. }) = spec_hit_node(
                        pane_count,
                        *second,
                        c[2],
                        col,
                        row,
                    ) {
                        lemma_hit_in_leaves(pane_count, *second, c[2], col, row);
                        lemma_terminal_rect_in_leaves(pane_count, *first, c[0], pane);
                        if fl.contains(pane) {
                            let i = choose|i: int| 0 <= i < fl.len() && fl[i] == pane;
                            let j = choose|j: int| 0 <= j < sl.len() && sl[j] == pane;
                            assert((fl + sl)[i] == (fl + sl)[fl.len() + j]);
                        }
                    }
                },
            }
        },
    }
}

/// Where a click lands in a pane's terminal is where that pane's terminal
/// area says: the pane has a terminal area, the pointer lies in it, and the
/// cell reported is the pointer's offset from its top-left corner (so a
/// press and a later drag at the same cell report the same cell), when no
/// pane appears twice in the tree.
pub proof fn law_hit_agrees_with_terminal_rect(
    pane_count: nat,
    layout: PaneNode,
    pane_stack: Rect,
    col: u16,
    row: u16,
)
    requires
        layout.leaves().no_duplicates(),
    ensures
        spec_hit_test_pane_stack(pane_count, layout, pane_stack, col, row) matches Some(
            PaneHit::Terminal { pane, local_col, local_row },
        ) ==> spec_pane_terminal_rect(pane_count, layout, pane_stack, pane) matches Some(t)
            && spec_pointer_in(t, col, row) && local_col == col.saturating_sub(t.x) && local_row
            == row.saturating_sub(t.y),
{
    lemma_hit_node_agrees(pane_count, layout, pane_stack, col, row);
}

/// Whether `node`, given `cols` by `rows` cells, gives every part the room
/// it asks for: each split leaves its second child at least a cell after the
/// first child's share, and each pane gets a column and, below its title
/// row, a row.
pub open spec fn unclamped(node: PaneNode, cols: u16, rows: u16) -> bool
    decreases node,
{
    match node {
        PaneNode::Leaf(_) => cols >= 1 && rows >= 2,
        PaneNode::Split { direction, ratio, first, second } => {
            let size = match direction {
                SplitDirection::Vertical => cols,
                SplitDirection::Horizontal => rows,
            };
            let sep: u16 = if size > 2 { 1 } else { 0 };
            let available = (size - sep) as u16;
            let f = spec_split_first_size(available, ratio);
            &&& f < available
            &&& match direction {
                SplitDirection::Vertical => unclamped(*first, f, rows) && unclamped(
                    *second,
                    (available - f) as u16,
                    rows,
                ),
                SplitDirection::Horizontal => unclamped(*first, cols, f) && unclamped(
                    *second,
                    cols,
                    (available - f) as u16,
                ),
            }
        },
    }
}

/// A pane is drawn at the size its program is given: when no part of the
/// tree is squeezed below the room it asks for (see `unclamped`) and the
/// area lies within the coordinate range, the terminal area of each pane of
/// the tree has the columns and rows that the tree's pane sizes give it, so
/// the drawn rectangles follow each split's ratio as the PTY sizes do.
pub proof fn law_terminal_rect_matches_pane_size(
    pane_count: nat,
    node: PaneNode,
    area: Rect,
    target: usize,
    default: (u16, u16),
)
    requires
        node.leaves().no_duplicates(),
        node.leaves().contains(target),
        target < pane_count,
        area.x + area.width <= u16::MAX,
        area.y + area.height <= u16::MAX,
        unclamped(node, area.width, area.height),
    ensures
        spec_pane_terminal_rect(pane_count, node, area, target) matches Some(t) && (t.width, t.height)
            == crate::app::size_for(node.spec_pane_sizes(area.width, area.height), target, default),
    decreases node,
{
    match node {
        PaneNode::Leaf(index) => {
            assert(node.leaves()[0] == index);
            let h = span(area, Direction::Vertical);
            let f = fixed_share(h, 1);
            lemma_tiles2(area, Direction::Vertical, f, (h - f) as u16);
        },
        PaneNode::Split { direction, ratio, first, second } => {
            let c = spec_split_chunks(direction, ratio, area);
            let (f, sep, sec) = split_lengths(direction, ratio, area);
            lemma_tiles3(area, axis(direction), f, sep, sec);
            let fl = first.leaves();
            let sl = second.leaves();
            assert(fl.no_duplicates() && sl.no_duplicates()) by {
                assert forall|i: int, j: int| 0 <= i < j < fl.len() implies fl[i] != fl[j] by {
                    assert((fl + sl)[i] == fl[i] && (fl + sl)[j] == fl[j]);
                }
                assert forall|i: int, j: int| 0 <= i < j < sl.len() implies sl[i] != sl[j] by {
                    assert((fl + sl)[fl.len() + i] == sl[i] && (fl + sl)[fl.len() + j] == sl[j]);
                }
            }
            lemma_contains_concat(fl, sl, target);
            let (cols1, rows1, cols2, rows2) = match direction {
                SplitDirection::Vertical => (f, area.height, sec, area.height),
                SplitDirection::Horizontal => (area.width, f, area.width, sec),
            };
            let s1 = first.spec_pane_sizes(cols1, rows1);
            let s2 = second.spec_pane_sizes(cols2, rows2);
            assert(node.spec_pane_sizes(area.width, area.height) == s1 + s2);
            lemma_pane_sizes_shape(*first, cols1, rows1);
            crate::app::lemma_size_for_concat(s1, s2, target, default);
            if fl.contains(target) {
                law_terminal_rect_matches_pane_size(pane_count, *first, c[0], target, default);
                lemma_leaf_pos(*first, target);
                assert(s1[first.leaf_pos(target)].0 == target);
            } else {
                assert(!(fl.contains(target)));
                law_terminal_rect_matches_pane_size(pane_count, *second, c[2], target, default);
                lemma_terminal_rect_in_leaves(pane_count, *first, c[0], target);
                assert forall|k: int| 0 <= k < s1.len() implies #[trigger] s1[k].0 != target by {
                    assert(s1[k].0 == fl[k]);
                }
            }
        },
    }
}

/// The area in which the split at `path` of `node` is drawn when `node` is
/// drawn in `area`: following the path, each split hands its first child
/// the first of its chunks and its second child the third.
pub open spec fn split_area_at(node: PaneNode, area: Rect, path: Seq<WhichChild>) -> Option<Rect>
    decreases path.len(),
{
    match node {
        PaneNode::Leaf(_) => None,
        PaneNode::Split { direction, ratio, first, second } => {
            if path.len() == 0 {
                Some(area)
            } else {
                let c = spec_split_chunks(direction, ratio, area);
                match path[0] {
                    WhichChild::First => split_area_at(*first, c[0], path.drop_first()),
                    WhichChild::Second => split_area_at(*second, c[2], path.drop_first()),
                }
            }
        },
    }
}

/// A separator hit names the split it belongs to: the path leads to a
/// split of the hit's direction, drawn over the hit's area, whose separator
/// is there and lies under the pointer. So dragging the hit separator moves
/// that split.
pub proof fn law_separator_hit_names_its_split(node: PaneNode, area: Rect, col: u16, row: u16)
    ensures
        spec_hit_separator(node, area, col, row) matches Some(h) ==> (node.spec_split_at(h.0) matches Some(
            PaneNode::Split { direction, ratio, .. },
        ) && direction == h.1 && split_area_at(node, area, h.0) == Some(h.2) && separator_len(
            direction,
            h.2,
        ) == 1 && spec_pointer_in(spec_split_chunks(direction, ratio, h.2)[1], col, row)),
    decreases node,
{
    match node {
        PaneNode::Leaf(_) => {},
        PaneNode::Split { direction, ratio, first, second } => {
            let c = spec_split_chunks(direction, ratio, area);
            law_separator_hit_names_its_split(*first, c[0], col, row);
            law_separator_hit_names_its_split(*second, c[2], col, row);
            if let Some(h) = spec_hit_separator(*first, c[0], col, row) {
                let p = seq![WhichChild::First] + h.0;
                assert(p[0] == WhichChild::First);
                assert(p.drop_first() =~= h.0);
            }
            if let Some(h) = spec_hit_separator(*second, c[2], col, row) {
                let p = seq![WhichChild::Second] + h.0;
                assert(p[0] == WhichChild::Second);
                assert(p.drop_first() =~= h.0);
            }
        },
    }
}

/// The lengths of a margin, the middle part of `percent` percent and the
/// other margin of `size` cells: the middle part starts at the margin's
/// share of `size` and ends at the margin's and the middle part's share,
/// each rounded to the nearest cell (halves up).
pub open spec fn centered_lengths(percent: u16, size: u16) -> (u16, u16, u16) {
    let margin = (100 - percent) / 2;
    let start = (size * margin + 50) / 100;
    let end = (size * (margin + percent) + 50) / 100;
    (start as u16, (end - start) as u16, (size - end) as u16)
}

fn centered_lengths_of(percent: u16, size: u16) -> (r: (u16, u16, u16))
    requires
        percent <= 100,
    ensures
        r == centered_lengths(percent, size),
        r.0 + r.1 + r.2 == size,
{
    let margin: u32 = ((100 - percent) / 2) as u32;
    let s: u32 = size as u32;
    let p: u32 = percent as u32;
    assert(s * margin <= 0xFFFF * 100 && s * (margin + p) <= 0xFFFF * 100 && s * margin <= s
        * (margin + p) && s * (margin + p) <= s * 100) by (nonlinear_arith)
        requires
            s <= 0xFFFF,
            margin + p <= 100,
    ;
    let start: u32 = (s * margin + 50) / 100;
    let end: u32 = (s * (margin + p) + 50) / 100;
    assert(start <= end && end <= s) by (nonlinear_arith)
        requires
            start == (s * margin + 50) / 100,
            end == (s * (margin + p) + 50) / 100,
            s * margin <= s * (margin + p),
            s * (margin + p) <= s * 100,
    ;
    (start as u16, (end - start) as u16, (s - end) as u16)
}

/// The area of `percent_x` by `percent_y` percent of `area`, centred in it.
pub open spec fn spec_centered_rect(percent_x: u16, percent_y: u16, area: Rect) -> Rect {
    let (top, middle, bottom) = centered_lengths(percent_y, span(area, Direction::Vertical));
    let row = tiles(area, Direction::Vertical, seq![top, middle, bottom])[1];
    let (left, center, right) = centered_lengths(percent_x, span(row, Direction::Horizontal));
    tiles(row, Direction::Horizontal, seq![left, center, right])[1]
}

/// The area of `percent_x` by `percent_y` percent of `area`, centred in it
/// (the help overlay).
pub fn centered_rect(percent_x: u16, percent_y: u16, area: Rect) -> (r: Rect)
    requires
        percent_x <= 100,
        percent_y <= 100,
    ensures
        r == spec_centered_rect(percent_x, percent_y, area),
{
    let (top, middle, bottom) = centered_lengths_of(percent_y, span_of(area, Direction::Vertical));
    proof {
        lemma_tiles3(area, Direction::Vertical, top, middle, bottom);
    }
    let vertical = split_area(area, Direction::Vertical, &three_lengths(top, middle, bottom));
    let row = vertical[1];
    let (left, center, right) = centered_lengths_of(percent_x, span_of(row, Direction::Horizontal));
    proof {
        lemma_tiles3(row, Direction::Horizontal, left, center, right);
    }
    let horizontal = split_area(row, Direction::Horizontal, &three_lengths(left, center, right));
    horizontal[1]
}
} // verus!
