use composite_joystick::joystick_mux::{AxisCode, EV_ABS, EV_KEY};
use composite_joystick::report::{
    make_report, ABS_HAT0X, ABS_HAT0Y, ABS_X, BTN_BASE6, BTN_PINKIE, BTN_TOP2, BTN_TRIGGER,
    BTN_TRIGGER_HAPPY32,
};

fn abs(code: u16) -> AxisCode {
    AxisCode { ev_type: EV_ABS, code }
}

fn key(code: u16) -> AxisCode {
    AxisCode { ev_type: EV_KEY, code }
}

#[test]
fn test_hat_zero() {
    assert_eq!(
        make_report(&vec![]),
        [
            0x00, 0x00, 0x00, 0x00, 0x00, 0x00, 0x00, 0x00, 0x00, 0x00, 0x00, 0x00, 0x00, 0x00,
            0x00, 0x00, 0x0f, 0x00, 0x00, 0x00, 0x00, 0x00
        ]
    );
}

#[test]
fn test_hat_plus_x() {
    assert_eq!(
        make_report(&vec![(abs(ABS_HAT0X), 1)]),
        [
            0x00, 0x00, 0x00, 0x00, 0x00, 0x00, 0x00, 0x00, 0x00, 0x00, 0x00, 0x00, 0x00, 0x00,
            0x00, 0x00, 0x02, 0x00, 0x00, 0x00, 0x00, 0x00
        ]
    );
}

#[test]
fn test_hat_plus_y() {
    assert_eq!(
        make_report(&vec![(abs(ABS_HAT0Y), 1)]),
        [
            0x00, 0x00, 0x00, 0x00, 0x00, 0x00, 0x00, 0x00, 0x00, 0x00, 0x00, 0x00, 0x00, 0x00,
            0x00, 0x00, 0x04, 0x00, 0x00, 0x00, 0x00, 0x00
        ]
    );
}

#[test]
fn test_hat_combines() {
    assert_eq!(
        make_report(&vec![(abs(ABS_HAT0Y), 1), (abs(ABS_HAT0X), 1)]),
        [
            0x00, 0x00, 0x00, 0x00, 0x00, 0x00, 0x00, 0x00, 0x00, 0x00, 0x00, 0x00, 0x00, 0x00,
            0x00, 0x00, 0x03, 0x00, 0x00, 0x00, 0x00, 0x00
        ]
    );
}

#[test]
fn test_button_firstbyte() {
    assert_eq!(
        make_report(&vec![(key(BTN_TRIGGER), 1)]),
        [
            0x00, 0x00, 0x00, 0x00, 0x00, 0x00, 0x00, 0x00, 0x00, 0x00, 0x00, 0x00, 0x00, 0x00,
            0x00, 0x00, 0x1f, 0x00, 0x00, 0x00, 0x00, 0x00
        ]
    );
}

#[test]
fn test_button_nextbyte() {
    assert_eq!(
        make_report(&vec![(key(BTN_TOP2), 1)]),
        [
            0x00, 0x00, 0x00, 0x00, 0x00, 0x00, 0x00, 0x00, 0x00, 0x00, 0x00, 0x00, 0x00, 0x00,
            0x00, 0x00, 0x0f, 0x01, 0x00, 0x00, 0x00, 0x00
        ]
    );
}

#[test]
fn test_button_combo_bytes() {
    assert_eq!(
        make_report(&vec![(key(BTN_TOP2), 1), (key(BTN_PINKIE), 1)]),
        [
            0x00, 0x00, 0x00, 0x00, 0x00, 0x00, 0x00, 0x00, 0x00, 0x00, 0x00, 0x00, 0x00, 0x00,
            0x00, 0x00, 0x0f, 0x03, 0x00, 0x00, 0x00, 0x00
        ]
    );
}

#[test]
fn test_button_lastbyte() {
    assert_eq!(
        make_report(&vec![(key(BTN_TRIGGER_HAPPY32), 1)]),
        [
            0x00, 0x00, 0x00, 0x00, 0x00, 0x00, 0x00, 0x00, 0x00, 0x00, 0x00, 0x00, 0x00, 0x00,
            0x00, 0x00, 0x0f, 0x00, 0x00, 0x00, 0x00, 0x80
        ]
    );
}

fn assert_x(x: i64, bytea: u8, byteb: u8) {
    assert_eq!(
        make_report(&vec![(abs(ABS_X), x)]),
        [
            bytea, byteb, 0x00, 0x00, 0x00, 0x00, 0x00, 0x00, 0x00, 0x00, 0x00, 0x00, 0x00, 0x00,
            0x00, 0x00, 0x0f, 0x00, 0x00, 0x00, 0x00, 0x00
        ]
    );
}

#[test]
fn test_axes_x() {
    assert_x(1, 0x01, 0x00);
    assert_x(15, 0x0f, 0x00);
    assert_x(16, 0x10, 0x00);
    assert_x(17, 0x11, 0x00);
    assert_x(123, 0x7b, 0x00);
    assert_x(1001, 0xe9, 0x03);
    assert_x(-1, 0xff, 0xff);
    assert_x(-1001, 0x17, 0xfc);
}

#[test]
fn test_later_duplicate_overwrites() {
    assert_x(1001, 0xe9, 0x03);
    assert_eq!(
        make_report(&vec![(abs(ABS_X), 7), (abs(ABS_X), 1001)]),
        make_report(&vec![(abs(ABS_X), 1001)])
    );
}

#[test]
fn test_unrecognized_code_is_ignored() {
    assert_eq!(
        make_report(&vec![(AxisCode { ev_type: 2, code: 0 }, 1234)]),
        make_report(&vec![])
    );
}

#[test]
fn test_all_hat_directions() {
    // The nine sign combinations, clockwise from the top; +Y is down.
    let cases: Vec<(i64, i64, u8)> = vec![
        (0, 0, 15),
        (0, -1, 0),
        (1, -1, 1),
        (1, 0, 2),
        (1, 1, 3),
        (0, 1, 4),
        (-1, 1, 5),
        (-1, 0, 6),
        (-1, -1, 7),
    ];
    for (sx, sy, nibble) in cases {
        let report = make_report(&vec![(abs(ABS_HAT0X), sx), (abs(ABS_HAT0Y), sy)]);
        assert_eq!(report[16], nibble, "hat ({sx}, {sy})");
    }
}

#[test]
fn test_hat_uses_signs_only() {
    assert_eq!(
        make_report(&vec![(abs(ABS_HAT0X), 500), (abs(ABS_HAT0Y), -3)]),
        make_report(&vec![(abs(ABS_HAT0X), 1), (abs(ABS_HAT0Y), -1)])
    );
}

#[test]
fn test_every_classic_button_sets_one_bit() {
    for code in BTN_TRIGGER..=BTN_BASE6 {
        let report = make_report(&vec![(key(code), 1)]);
        let empty = make_report(&vec![]);
        let mut differing = 0;
        for i in 0..22 {
            if report[i] != empty[i] {
                differing += 1;
                assert_eq!((report[i] ^ empty[i]).count_ones(), 1);
            }
        }
        assert_eq!(differing, 1, "button code {code:#x}");
    }
}

#[test]
fn test_button_released_clears_bit() {
    assert_eq!(
        make_report(&vec![(key(BTN_TRIGGER), 1), (key(BTN_TRIGGER), 0)]),
        make_report(&vec![])
    );
}
