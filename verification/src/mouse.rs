//! Mouse events forwarded to a pane, encoded as XTerm SGR (1006) mouse
//! reports.
use vstd::prelude::*;
use crate::input::KeyModifiers;

verus! {

/// A mouse button.
#[derive(Debug, Clone, Copy, PartialEq, Eq)]
pub enum MouseButton {
    Left,
    Right,
    Middle,
}

/// What the mouse did.
#[derive(Debug, Clone, Copy, PartialEq, Eq)]
pub enum MouseEventKind {
    Down(MouseButton),
    Up(MouseButton),
    Drag(MouseButton),
    Moved,
    ScrollDown,
    ScrollUp,
    ScrollLeft,
    ScrollRight,
}

/// The decimal digits of `n`, as ASCII bytes, without leading zeros.
pub open spec fn decimal(n: nat) -> Seq<u8>
    decreases n,
{
    if n < 10 {
        seq![(48 + n) as u8]
    } else {
        decimal(n / 10).push((48 + n % 10) as u8)
    }
}

/// Appends the decimal digits of `n` to `buf`.
pub fn push_decimal(buf: &mut Vec<u8>, n: u32)
    ensures
        final(buf)@ == old(buf)@ + decimal(n as nat),
    decreases n,
{
    if n >= 10 {
        push_decimal(buf, n / 10);
    }
    buf.push((48 + n % 10) as u8);
    assert(final(buf)@ =~= old(buf)@ + decimal(n as nat));
}

/// The button code of an event, and whether the report ends in `m`
/// (a release) rather than `M`.
pub open spec fn spec_mouse_cb(kind: MouseEventKind) -> (u8, bool) {
    match kind {
        MouseEventKind::Down(MouseButton::Left) => (0, false),
        MouseEventKind::Down(MouseButton::Middle) => (1, false),
        MouseEventKind::Down(MouseButton::Right) => (2, false),
        MouseEventKind::Up(_) => (3, true),
        MouseEventKind::Drag(MouseButton::Left) => (0x20, false),
        MouseEventKind::Drag(MouseButton::Middle) => (0x21, false),
        MouseEventKind::Drag(MouseButton::Right) => (0x22, false),
        MouseEventKind::Moved => (0x23, false),
        MouseEventKind::ScrollUp => (0x40, false),
        MouseEventKind::ScrollDown => (0x41, false),
        MouseEventKind::ScrollLeft => (0x42, false),
        MouseEventKind::ScrollRight => (0x43, false),
    }
}

/// The button code of an event, and whether the report ends in `m`.
pub fn mouse_cb(kind: MouseEventKind) -> (r: (u8, bool))
    ensures
        r == spec_mouse_cb(kind),
{
    assert(1u8 | 0x20u8 == 0x21u8) by (bit_vector);
    assert(2u8 | 0x20u8 == 0x22u8) by (bit_vector);
    assert(3u8 | 0x20u8 == 0x23u8) by (bit_vector);
    match kind {
        MouseEventKind::Down(MouseButton::Left) => (0, false),
        MouseEventKind::Down(MouseButton::Middle) => (1, false),
        MouseEventKind::Down(MouseButton::Right) => (2, false),
        MouseEventKind::Up(_) => (3, true),
        MouseEventKind::Drag(MouseButton::Left) => (0x20, false),
        MouseEventKind::Drag(MouseButton::Middle) => (1 | 0x20, false),
        MouseEventKind::Drag(MouseButton::Right) => (2 | 0x20, false),
        MouseEventKind::Moved => (3 | 0x20, false),
        MouseEventKind::ScrollUp => (0x40, false),
        MouseEventKind::ScrollDown => (0x41, false),
        MouseEventKind::ScrollLeft => (0x42, false),
        MouseEventKind::ScrollRight => (0x43, false),
    }
}

/// The button code with the modifier bits: 4 for Shift, 8 for Alt, 16 for
/// Control.
pub open spec fn spec_apply_modifiers(cb: u8, modifiers: KeyModifiers) -> u8 {
    let a: u8 = if modifiers.shift { cb | 0x04 } else { cb };
    let b: u8 = if modifiers.alt { a | 0x08 } else { a };
    if modifiers.control { b | 0x10 } else { b }
}

/// The button code with the modifier bits.
pub fn apply_modifiers(cb: u8, modifiers: KeyModifiers) -> (r: u8)
    ensures
        r == spec_apply_modifiers(cb, modifiers),
{
    let mut cb = cb;
    if modifiers.shift {
        cb = cb | 0x04;
    }
    if modifiers.alt {
        cb = cb | 0x08;
    }
    if modifiers.control {
        cb = cb | 0x10;
    }
    cb
}

/// The 1-based report coordinate of a 0-based cell `local` in a pane of
/// `size` cells: clamped to the pane, which counts as at least one cell.
pub open spec fn report_coord(local: u16, size: u16) -> nat {
    let cells: u16 = if size < 1 { 1 } else { size };
    let max = (cells - 1) as u16;
    ((if local < max { local } else { max }) + 1) as nat
}

/// The SGR report of an event: `ESC [ <`, the button code with modifier
/// bits, `;`, the column, `;`, the row, then `M`, or `m` for a release.
pub open spec fn spec_sgr_report(
    kind: MouseEventKind,
    modifiers: KeyModifiers,
    local_col: u16,
    local_row: u16,
    pane_cols: u16,
    pane_rows: u16,
) -> Seq<u8> {
    let (cb, lowercase_m) = spec_mouse_cb(kind);
    seq![0x1bu8, 0x5b, 0x3c] + decimal(spec_apply_modifiers(cb, modifiers) as nat) + seq![0x3bu8]
        + decimal(report_coord(local_col, pane_cols)) + seq![0x3bu8] + decimal(
        report_coord(local_row, pane_rows),
    ) + seq![if lowercase_m { 0x6du8 } else { 0x4du8 }]
}

/// Encodes an event at the 0-based cell `(local_col, local_row)` of a pane
/// of `pane_cols` by `pane_rows` cells as an SGR mouse report; the cell is
/// clamped to the pane and reported 1-based. Always `Some`.
pub fn encode_sgr_mouse(
    kind: MouseEventKind,
    modifiers: KeyModifiers,
    local_col: u16,
    local_row: u16,
    pane_cols: u16,
    pane_rows: u16,
) -> (r: Option<Vec<u8>>)
    ensures
        r matches Some(v) && v@ == spec_sgr_report(
            kind,
            modifiers,
            local_col,
            local_row,
            pane_cols,
            pane_rows,
        ),
{
    let cols: u16 = if pane_cols < 1 { 1 } else { pane_cols };
    let rows: u16 = if pane_rows < 1 { 1 } else { pane_rows };
    let max_c = cols.saturating_sub(1);
    let max_r = rows.saturating_sub(1);
    let lc = if local_col < max_c { local_col } else { max_c };
    let lr = if local_row < max_r { local_row } else { max_r };
    let cx: u32 = lc as u32 + 1;
    let cy: u32 = lr as u32 + 1;
    let (cb, lowercase_m) = mouse_cb(kind);
    let cb = apply_modifiers(cb, modifiers);
    let mut seq: Vec<u8> = vec![0x1bu8, 0x5b, 0x3c];
    let ghost start = seq@;
    push_decimal(&mut seq, cb as u32);
    seq.push(0x3b);
    push_decimal(&mut seq, cx);
    seq.push(0x3b);
    push_decimal(&mut seq, cy);
    seq.push(if lowercase_m { 0x6d } else { 0x4d });
    assert(seq@ =~= spec_sgr_report(kind, modifiers, local_col, local_row, pane_cols, pane_rows));
    Some(seq)
}

/// A reported cell never lies outside the pane: both coordinates are
/// between 1 and the pane's size (a pane counts as at least one cell).
pub proof fn law_report_inside_pane(local: u16, size: u16)
    ensures
        1 <= report_coord(local, size),
        report_coord(local, size) <= (if size < 1 { 1 } else { size as nat }),
{
}

/// Setting the modifier bits of a button code whose modifier bits are clear
/// adds their values.
proof fn lemma_modifier_bits_add(c: u8)
    by (bit_vector)
    requires
        c & 0x1c == 0,
    ensures
        (c | 0x04) == c + 4,
        (c | 0x08) == c + 8,
        (c | 0x10) == c + 16,
        ((c | 0x04) | 0x08) == c + 12,
        ((c | 0x04) | 0x10) == c + 20,
        ((c | 0x08) | 0x10) == c + 24,
        (((c | 0x04) | 0x08) | 0x10) == c + 28,
{
}

/// The number of a mouse button in a report: left 0, middle 1, right 2.
pub open spec fn button_number(b: MouseButton) -> int {
    match b {
        MouseButton::Left => 0,
        MouseButton::Middle => 1,
        MouseButton::Right => 2,
    }
}

/// The button codes of SGR reports: a press reports the button's number, a
/// release 3 and ends in `m`, a drag the button's number plus 32, a move
/// 35, the wheel 64 plus 0, 1, 2 or 3 (up, down, left, right); every other
/// report ends in `M`. Shift, Alt and Control add 4, 8 and 16.
pub proof fn law_sgr_button_codes(kind: MouseEventKind, modifiers: KeyModifiers)
    ensures
        spec_mouse_cb(kind) == (match kind {
            MouseEventKind::Down(b) => ((button_number(b)) as u8, false),
            MouseEventKind::Up(_) => (3u8, true),
            MouseEventKind::Drag(b) => ((32 + button_number(b)) as u8, false),
            MouseEventKind::Moved => (35u8, false),
            MouseEventKind::ScrollUp => (64u8, false),
            MouseEventKind::ScrollDown => (65u8, false),
            MouseEventKind::ScrollLeft => (66u8, false),
            MouseEventKind::ScrollRight => (67u8, false),
        }),
        spec_apply_modifiers(spec_mouse_cb(kind).0, modifiers) == spec_mouse_cb(kind).0 + (if modifiers.shift {
            4int
        } else {
            0
        }) + (if modifiers.alt {
            8int
        } else {
            0
        }) + (if modifiers.control {
            16int
        } else {
            0
        }),
{
    let cb = spec_mouse_cb(kind).0;
    assert(cb & 0x1c == 0) by {
        assert(0u8 & 0x1c == 0 && 1u8 & 0x1c == 0 && 2u8 & 0x1c == 0 && 3u8 & 0x1c == 0) by (bit_vector);
        assert(0x20u8 & 0x1c == 0 && 0x21u8 & 0x1c == 0 && 0x22u8 & 0x1c == 0 && 0x23u8 & 0x1c == 0)
            by (bit_vector);
        assert(0x40u8 & 0x1c == 0 && 0x41u8 & 0x1c == 0 && 0x42u8 & 0x1c == 0 && 0x43u8 & 0x1c == 0)
            by (bit_vector);
    }
    lemma_modifier_bits_add(cb);
}

/// The number that a string of ASCII digits reads as.
pub open spec fn digits_value(s: Seq<u8>) -> int
    decreases s.len(),
{
    if s.len() == 0 {
        0
    } else {
        digits_value(s.drop_last()) * 10 + (s.last() - 48)
    }
}

/// The decimal form of a number is ASCII digits, with no leading zero but
/// for zero itself, that read back as the number.
pub proof fn law_decimal_reads_back(n: nat)
    ensures
        decimal(n).len() >= 1,
        n >= 10 ==> decimal(n).len() >= 2,
        forall|i: int| 0 <= i < decimal(n).len() ==> 48 <= #[trigger] decimal(n)[i] <= 57,
        decimal(n).len() > 1 ==> decimal(n)[0] != 48,
        digits_value(decimal(n)) == n,
    decreases n,
{
    if n >= 10 {
        law_decimal_reads_back(n / 10);
        let d = decimal(n / 10);
        let s = decimal(n);
        assert(s == d.push((48 + n % 10) as u8));
        assert(s.drop_last() =~= d);
        assert forall|i: int| 0 <= i < s.len() implies 48 <= #[trigger] s[i] <= 57 by {
            if i < d.len() {
                assert(s[i] == d[i]);
            }
        }
        if n / 10 < 10 {
            assert(d == seq![(48 + n / 10) as u8]);
            assert(d[0] != 48);
        }
        assert(s[0] == d[0]);
        assert(s.last() == (48 + n % 10) as u8);
        assert(digits_value(s) == digits_value(d) * 10 + (s.last() - 48));
        assert(n == (n / 10) * 10 + n % 10);
    } else {
        let s = decimal(n);
        assert(s == seq![(48 + n) as u8]);
        assert(s.drop_last() =~= Seq::<u8>::empty());
        assert(digits_value(Seq::<u8>::empty()) == 0);
        assert(digits_value(s) == digits_value(s.drop_last()) * 10 + (s.last() - 48));
    }
}

} // verus!
