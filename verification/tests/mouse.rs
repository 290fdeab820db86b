use kandume::input::KeyModifiers;
use kandume::mouse::{apply_modifiers, encode_sgr_mouse, mouse_cb, push_decimal, MouseButton, MouseEventKind};

fn shift() -> KeyModifiers {
    KeyModifiers { shift: true, control: false, alt: false }
}

#[test]
fn encodes_left_press_sgr() {
    let bytes = encode_sgr_mouse(
        MouseEventKind::Down(MouseButton::Left),
        KeyModifiers::empty(),
        0,
        0,
        80,
        24,
    )
    .unwrap();
    assert_eq!(bytes, b"\x1b[<0;1;1M");
}

#[test]
fn encodes_scroll_down_with_coords() {
    let bytes = encode_sgr_mouse(MouseEventKind::ScrollDown, KeyModifiers::empty(), 10, 5, 80, 24)
        .unwrap();
    assert_eq!(bytes, b"\x1b[<65;11;6M");
}

#[test]
fn encodes_release_lowercase_m() {
    let bytes = encode_sgr_mouse(
        MouseEventKind::Up(MouseButton::Left),
        KeyModifiers::empty(),
        3,
        2,
        80,
        24,
    )
    .unwrap();
    assert_eq!(bytes, b"\x1b[<3;4;3m");
}

#[test]
fn clamps_to_pane_bounds() {
    let bytes = encode_sgr_mouse(
        MouseEventKind::Down(MouseButton::Left),
        KeyModifiers::empty(),
        99,
        99,
        10,
        5,
    )
    .unwrap();
    assert_eq!(bytes, b"\x1b[<0;10;5M");
}

#[test]
fn shift_modifier_sets_bit() {
    let bytes = encode_sgr_mouse(
        MouseEventKind::Down(MouseButton::Left),
        shift(),
        0,
        0,
        80,
        24,
    )
    .unwrap();
    assert_eq!(bytes, b"\x1b[<4;1;1M");
}

#[test]
fn zero_sized_pane_reports_cell_one() {
    let bytes = encode_sgr_mouse(MouseEventKind::Moved, KeyModifiers::empty(), 7, 7, 0, 0).unwrap();
    assert_eq!(bytes, b"\x1b[<35;1;1M");
}

#[test]
fn button_codes() {
    assert_eq!(mouse_cb(MouseEventKind::Down(MouseButton::Middle)), (1, false));
    assert_eq!(mouse_cb(MouseEventKind::Down(MouseButton::Right)), (2, false));
    assert_eq!(mouse_cb(MouseEventKind::Up(MouseButton::Right)), (3, true));
    assert_eq!(mouse_cb(MouseEventKind::Drag(MouseButton::Left)), (32, false));
    assert_eq!(mouse_cb(MouseEventKind::Drag(MouseButton::Middle)), (33, false));
    assert_eq!(mouse_cb(MouseEventKind::Drag(MouseButton::Right)), (34, false));
    assert_eq!(mouse_cb(MouseEventKind::ScrollUp), (64, false));
    assert_eq!(mouse_cb(MouseEventKind::ScrollLeft), (66, false));
    assert_eq!(mouse_cb(MouseEventKind::ScrollRight), (67, false));
}

#[test]
fn modifier_bits() {
    let all = KeyModifiers { shift: true, control: true, alt: true };
    assert_eq!(apply_modifiers(0, all), 28);
    assert_eq!(apply_modifiers(0x40, KeyModifiers { shift: false, control: true, alt: false }), 0x50);
    assert_eq!(apply_modifiers(3, KeyModifiers { shift: false, control: false, alt: true }), 11);
}

#[test]
fn decimal_digits() {
    let mut buf = vec![b'x'];
    push_decimal(&mut buf, 0);
    push_decimal(&mut buf, 4_294_967_295);
    assert_eq!(buf, b"x04294967295");
}

#[test]
fn large_coordinates_are_written_in_full() {
    let bytes = encode_sgr_mouse(
        MouseEventKind::Drag(MouseButton::Right),
        KeyModifiers::empty(),
        65534,
        999,
        65535,
        1000,
    )
    .unwrap();
    assert_eq!(bytes, b"\x1b[<34;65535;1000M");
}
