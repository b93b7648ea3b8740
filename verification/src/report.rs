//! The report encoder: deterministic packing of one combined output state
//! into the fixed 22-byte binary report the virtual HID device consumes.
//!
//! Layout of the report: eight little-endian 16-bit signed axis fields at
//! offsets 0 to 15 (x, y, z, rx, ry, rz, slider, dial), the hat direction in
//! the low nibble of byte 16, and 44 button bits — the first four in the
//! high bits of byte 16, the rest in bytes 17 to 21, least significant bit
//! first within each byte.

use vstd::prelude::*;
use crate::joystick_mux::{AxisCode, EV_ABS, EV_KEY};

verus! {

/// Code of the x axis within the absolute-axis event type.
pub const ABS_X: u16 = 0x00;

/// Code of the y axis.
pub const ABS_Y: u16 = 0x01;

/// Code of the z axis.
pub const ABS_Z: u16 = 0x02;

/// Code of the x-rotation axis.
pub const ABS_RX: u16 = 0x03;

/// Code of the y-rotation axis.
pub const ABS_RY: u16 = 0x04;

/// Code of the z-rotation axis.
pub const ABS_RZ: u16 = 0x05;

/// Code of the throttle axis, carried in the report's slider field.
pub const ABS_THROTTLE: u16 = 0x06;

/// Code of the rudder axis, carried in the report's dial field.
pub const ABS_RUDDER: u16 = 0x07;

/// Code of the hat's horizontal channel.
pub const ABS_HAT0X: u16 = 0x10;

/// Code of the hat's vertical channel.
pub const ABS_HAT0Y: u16 = 0x11;

/// First of the twelve contiguous classic button codes within the key
/// event type (trigger, thumb, thumb2, top, top2, pinkie, base 1-6).
pub const BTN_TRIGGER: u16 = 0x120;

/// Code of the thumb button.
pub const BTN_THUMB: u16 = 0x121;

/// Code of the second thumb button.
pub const BTN_THUMB2: u16 = 0x122;

/// Code of the top button.
pub const BTN_TOP: u16 = 0x123;

/// Code of the second top button.
pub const BTN_TOP2: u16 = 0x124;

/// Code of the pinkie button.
pub const BTN_PINKIE: u16 = 0x125;

/// Code of the first base button.
pub const BTN_BASE: u16 = 0x126;

/// Last of the twelve classic button codes.
pub const BTN_BASE6: u16 = 0x12b;

/// First of the 32 contiguous extended button codes.
pub const BTN_TRIGGER_HAPPY1: u16 = 0x2c0;

/// Last of the 32 extended button codes.
pub const BTN_TRIGGER_HAPPY32: u16 = 0x2df;

/// The sign of a raw axis value: -1, 0 or 1.
pub open spec fn sign_spec(v: int) -> int {
    if v > 0 {
        1
    } else if v < 0 {
        -1
    } else {
        0
    }
}

/// Reduce a raw axis value to its sign.
pub fn sign_of(v: i64) -> (r: i64)
    ensures
        r == sign_spec(v as int),
{
    if v > 0 {
        1
    } else if v < 0 {
        -1
    } else {
        0
    }
}

/// The compass index of a hat switch, from the signs of its two raw
/// channels: 0 to 7 clockwise from the top, with +Y pointing down and +X
/// pointing right, and 15 as the "no direction" sentinel for the centered
/// position.
pub open spec fn hat_direction_spec(sx: int, sy: int) -> int {
    if sx == 0 && sy == -1 {
        0
    } else if sx == 1 && sy == -1 {
        1
    } else if sx == 1 && sy == 0 {
        2
    } else if sx == 1 && sy == 1 {
        3
    } else if sx == 0 && sy == 1 {
        4
    } else if sx == -1 && sy == 1 {
        5
    } else if sx == -1 && sy == 0 {
        6
    } else if sx == -1 && sy == -1 {
        7
    } else {
        15
    }
}

/// Map the signs of the two hat channels to the compass index at run time.
pub fn hatxy_to_angle(hatx: i64, haty: i64) -> (r: u8)
    requires
        -1 <= hatx <= 1,
        -1 <= haty <= 1,
    ensures
        r == hat_direction_spec(hatx as int, haty as int),
{
    if hatx == 0 && haty == -1 {
        0
    } else if hatx == 1 && haty == -1 {
        1
    } else if hatx == 1 && haty == 0 {
        2
    } else if hatx == 1 && haty == 1 {
        3
    } else if hatx == 0 && haty == 1 {
        4
    } else if hatx == -1 && haty == 1 {
        5
    } else if hatx == -1 && haty == 0 {
        6
    } else if hatx == -1 && haty == -1 {
        7
    } else {
        15
    }
}

/// The hat mapping is exhaustive over the nine sign combinations and
/// produces exactly the compass table: the eight directions clockwise from
/// the top, and the "no direction" sentinel for the centered position.
pub proof fn lemma_hat_direction_table()
    ensures
        hat_direction_spec(0, 0) == 15,
        hat_direction_spec(0, -1) == 0,
        hat_direction_spec(1, -1) == 1,
        hat_direction_spec(1, 0) == 2,
        hat_direction_spec(1, 1) == 3,
        hat_direction_spec(0, 1) == 4,
        hat_direction_spec(-1, 1) == 5,
        hat_direction_spec(-1, 0) == 6,
        hat_direction_spec(-1, -1) == 7,
        forall|sx: int, sy: int|
            -1 <= sx <= 1 && -1 <= sy <= 1 && !(sx == 0 && sy == 0) ==> 0
                <= #[trigger] hat_direction_spec(sx, sy) <= 7,
{
}

/// A 64-bit value truncated to the 16-bit signed range, keeping the low 16
/// bits of its two's-complement form.
pub open spec fn i16_trunc_spec(v: int) -> int {
    let m = v % 0x10000;
    if m >= 0x8000 {
        m - 0x10000
    } else {
        m
    }
}

/// Truncate a value to the 16-bit signed range at run time.
pub fn i16_trunc(v: i64) -> (r: i16)
    ensures
        r as int == i16_trunc_spec(v as int),
{
    let m0: i64 = v % 0x10000;
    let m: i64 = if m0 < 0 {
        m0 + 0x10000
    } else {
        m0
    };
    proof {
        let vi = v as int;
        if vi >= 0 {
            vstd::arithmetic::div_mod::lemma_mod_bound(vi, 0x10000);
        } else {
            let w = (-vi) % 0x10000;
            let d = (-vi) / 0x10000;
            vstd::arithmetic::div_mod::lemma_fundamental_div_mod(-vi, 0x10000);
            vstd::arithmetic::div_mod::lemma_mod_bound(-vi, 0x10000);
            if w == 0 {
                vstd::arithmetic::div_mod::lemma_fundamental_div_mod_converse(vi, 0x10000, -d, 0);
            } else {
                vstd::arithmetic::div_mod::lemma_fundamental_div_mod_converse(
                    vi,
                    0x10000,
                    -d - 1,
                    0x10000 - w,
                );
            }
        }
        assert(m == vi % 0x10000);
    }
    if m >= 0x8000 {
        (m - 0x10000) as i16
    } else {
        m as i16
    }
}

/// The low byte of a 16-bit signed value's little-endian form.
pub open spec fn lo_byte(v: int) -> u8 {
    (u16_rep(v) % 0x100) as u8
}

/// The high byte of a 16-bit signed value's little-endian form.
pub open spec fn hi_byte(v: int) -> u8 {
    (u16_rep(v) / 0x100) as u8
}

/// The two's-complement 16-bit representation of a value in
/// `[-0x8000, 0x8000)`.
pub open spec fn u16_rep(v: int) -> int {
    if v >= 0 {
        v
    } else {
        v + 0x10000
    }
}

/// Split a 16-bit signed value into its little-endian byte pair.
pub fn i16_le_bytes(v: i16) -> (r: (u8, u8))
    ensures
        r.0 == lo_byte(v as int),
        r.1 == hi_byte(v as int),
{
    let u: u16 = if v >= 0 {
        v as u16
    } else {
        ((v as i32) + 0x10000) as u16
    };
    ((u % 0x100) as u8, (u / 0x100) as u8)
}

/// The decoded form of one report, field by field, before bit packing:
/// eight 16-bit axes, the hat direction (0 to 7, or 15 for "no
/// direction"), and 44 button flags in their fixed declaration order.
#[derive(Debug)]
pub struct CompositeJoystickReport {
    pub x: i16,
    pub y: i16,
    pub z: i16,
    pub rx: i16,
    pub ry: i16,
    pub rz: i16,
    pub slider: i16,
    pub dial: i16,
    pub hat: u8,
    pub buttons: Vec<bool>,
}

impl CompositeJoystickReport {
    /// Exactly 44 buttons, and a hat value that fits its 4-bit field.
    pub open spec fn wf(&self) -> bool {
        &&& self.buttons@.len() == 44
        &&& self.hat <= 15
    }
}

/// 1 for a set flag, 0 for a clear one.
pub open spec fn bit01(b: bool) -> int {
    if b {
        1
    } else {
        0
    }
}

/// One packed button byte: the eight flags starting at `s`, least
/// significant bit first.
pub open spec fn byte_of_buttons(bs: Seq<bool>, s: int) -> u8 {
    (bit01(bs[s]) + 2 * bit01(bs[s + 1]) + 4 * bit01(bs[s + 2]) + 8 * bit01(bs[s + 3]) + 16 * bit01(
        bs[s + 4],
    ) + 32 * bit01(bs[s + 5]) + 64 * bit01(bs[s + 6]) + 128 * bit01(bs[s + 7])) as u8
}

/// The shared hat-and-buttons byte: the hat direction in the low nibble
/// and the first four button flags in the high bits.
pub open spec fn hat_button_byte(hat: int, bs: Seq<bool>) -> u8 {
    (hat + 16 * bit01(bs[0]) + 32 * bit01(bs[1]) + 64 * bit01(bs[2]) + 128 * bit01(bs[3])) as u8
}

/// The 22 bytes of a packed report.
pub open spec fn packed_bytes(r: CompositeJoystickReport) -> Seq<u8> {
    seq![
        lo_byte(r.x as int),
        hi_byte(r.x as int),
        lo_byte(r.y as int),
        hi_byte(r.y as int),
        lo_byte(r.z as int),
        hi_byte(r.z as int),
        lo_byte(r.rx as int),
        hi_byte(r.rx as int),
        lo_byte(r.ry as int),
        hi_byte(r.ry as int),
        lo_byte(r.rz as int),
        hi_byte(r.rz as int),
        lo_byte(r.slider as int),
        hi_byte(r.slider as int),
        lo_byte(r.dial as int),
        hi_byte(r.dial as int),
        hat_button_byte(r.hat as int, r.buttons@),
        byte_of_buttons(r.buttons@, 4),
        byte_of_buttons(r.buttons@, 12),
        byte_of_buttons(r.buttons@, 20),
        byte_of_buttons(r.buttons@, 28),
        byte_of_buttons(r.buttons@, 36),
    ]
}

/// Read one button flag at run time.
fn button_at(bs: &Vec<bool>, i: usize) -> (r: u8)
    requires
        i < bs@.len(),
    ensures
        r == bit01(bs@[i as int]),
{
    if bs[i] {
        1
    } else {
        0
    }
}

/// Pack one button byte at run time.
fn pack_button_byte(bs: &Vec<bool>, s: usize) -> (r: u8)
    requires
        s + 8 <= bs@.len(),
        bs@.len() <= usize::MAX,
    ensures
        r == byte_of_buttons(bs@, s as int),
{
    button_at(bs, s) + 2 * button_at(bs, s + 1) + 4 * button_at(bs, s + 2) + 8 * button_at(bs, s + 3)
        + 16 * button_at(bs, s + 4) + 32 * button_at(bs, s + 5) + 64 * button_at(bs, s + 6) + 128
        * button_at(bs, s + 7)
}

/// Pack a report into its 22-byte wire form.
pub fn pack_report(report: &CompositeJoystickReport) -> (r: [u8; 22])
    requires
        report.wf(),
    ensures
        r@ == packed_bytes(*report),
{
    let (xl, xh) = i16_le_bytes(report.x);
    let (yl, yh) = i16_le_bytes(report.y);
    let (zl, zh) = i16_le_bytes(report.z);
    let (rxl, rxh) = i16_le_bytes(report.rx);
    let (ryl, ryh) = i16_le_bytes(report.ry);
    let (rzl, rzh) = i16_le_bytes(report.rz);
    let (sl, sh) = i16_le_bytes(report.slider);
    let (dl, dh) = i16_le_bytes(report.dial);
    let hb: u8 = report.hat + 16 * button_at(&report.buttons, 0) + 32 * button_at(
        &report.buttons,
        1,
    ) + 64 * button_at(&report.buttons, 2) + 128 * button_at(&report.buttons, 3);
    let b17: u8 = pack_button_byte(&report.buttons, 4);
    let b18: u8 = pack_button_byte(&report.buttons, 12);
    let b19: u8 = pack_button_byte(&report.buttons, 20);
    let b20: u8 = pack_button_byte(&report.buttons, 28);
    let b21: u8 = pack_button_byte(&report.buttons, 36);
    let bytes: [u8; 22] = [
        xl,
        xh,
        yl,
        yh,
        zl,
        zh,
        rxl,
        rxh,
        ryl,
        ryh,
        rzl,
        rzh,
        sl,
        sh,
        dl,
        dh,
        hb,
        b17,
        b18,
        b19,
        b20,
        b21,
    ];
    proof {
        assert(bytes@ =~= packed_bytes(*report));
    }
    bytes
}

/// The value of the last entry for code `c`, if any. Later entries for the
/// same code overwrite earlier ones during encoding, so only the last one
/// counts.
pub open spec fn last_value(state: Seq<(AxisCode, i64)>, c: AxisCode) -> Option<i64>
    decreases state.len(),
{
    if state.len() == 0 {
        None
    } else if state.last().0 == c {
        Some(state.last().1)
    } else {
        last_value(state.drop_last(), c)
    }
}

/// Extending the state by one entry changes only that entry's code.
proof fn lemma_last_value_step(state: Seq<(AxisCode, i64)>, i: int, c: AxisCode)
    requires
        0 <= i < state.len(),
    ensures
        last_value(state.take(i + 1), c) == (if state[i].0 == c {
            Some(state[i].1)
        } else {
            last_value(state.take(i), c)
        }),
{
    assert(state.take(i + 1).drop_last() =~= state.take(i));
    assert(state.take(i + 1).last() == state[i]);
}

/// The value a 16-bit axis field takes: the last entry for its code,
/// truncated to the 16-bit signed range, or 0 when the code never appears.
pub open spec fn axis_field_spec(state: Seq<(AxisCode, i64)>, code: u16) -> int {
    match last_value(state, AxisCode { ev_type: EV_ABS, code }) {
        Some(v) => i16_trunc_spec(v as int),
        None => 0,
    }
}

/// The sign one hat channel contributes: the sign of its last entry, or 0
/// when the channel never appears.
pub open spec fn hat_sign_spec(state: Seq<(AxisCode, i64)>, code: u16) -> int {
    match last_value(state, AxisCode { ev_type: EV_ABS, code }) {
        Some(v) => sign_spec(v as int),
        None => 0,
    }
}

/// The event code that drives button `j`: the twelve classic button codes
/// for the first twelve flags, the 32 extended codes for the rest.
pub open spec fn button_code_spec(j: int) -> AxisCode {
    if j < 12 {
        AxisCode { ev_type: EV_KEY, code: (0x120 + j) as u16 }
    } else {
        AxisCode { ev_type: EV_KEY, code: (0x2c0 + j - 12) as u16 }
    }
}

/// The button index driven by an event code, if any.
pub open spec fn button_index_spec(c: AxisCode) -> Option<int> {
    if c.ev_type == EV_KEY && BTN_TRIGGER <= c.code <= BTN_BASE6 {
        Some((c.code - BTN_TRIGGER) as int)
    } else if c.ev_type == EV_KEY && BTN_TRIGGER_HAPPY1 <= c.code <= BTN_TRIGGER_HAPPY32 {
        Some(12 + c.code - BTN_TRIGGER_HAPPY1)
    } else {
        None
    }
}

/// Whether button `j` is set: its code's last entry is nonzero.
pub open spec fn button_field_spec(state: Seq<(AxisCode, i64)>, j: int) -> bool {
    match last_value(state, button_code_spec(j)) {
        Some(v) => v != 0,
        None => false,
    }
}

/// The 22 report bytes an output state encodes to.
pub open spec fn report_bytes_spec(state: Seq<(AxisCode, i64)>) -> Seq<u8> {
    seq![
        lo_byte(axis_field_spec(state, ABS_X)),
        hi_byte(axis_field_spec(state, ABS_X)),
        lo_byte(axis_field_spec(state, ABS_Y)),
        hi_byte(axis_field_spec(state, ABS_Y)),
        lo_byte(axis_field_spec(state, ABS_Z)),
        hi_byte(axis_field_spec(state, ABS_Z)),
        lo_byte(axis_field_spec(state, ABS_RX)),
        hi_byte(axis_field_spec(state, ABS_RX)),
        lo_byte(axis_field_spec(state, ABS_RY)),
        hi_byte(axis_field_spec(state, ABS_RY)),
        lo_byte(axis_field_spec(state, ABS_RZ)),
        hi_byte(axis_field_spec(state, ABS_RZ)),
        lo_byte(axis_field_spec(state, ABS_THROTTLE)),
        hi_byte(axis_field_spec(state, ABS_THROTTLE)),
        lo_byte(axis_field_spec(state, ABS_RUDDER)),
        hi_byte(axis_field_spec(state, ABS_RUDDER)),
        hat_button_byte(
            hat_direction_spec(
                hat_sign_spec(state, ABS_HAT0X),
                hat_sign_spec(state, ABS_HAT0Y),
            ),
            state_buttons_spec(state),
        ),
        byte_of_buttons(state_buttons_spec(state), 4),
        byte_of_buttons(state_buttons_spec(state), 12),
        byte_of_buttons(state_buttons_spec(state), 20),
        byte_of_buttons(state_buttons_spec(state), 28),
        byte_of_buttons(state_buttons_spec(state), 36),
    ]
}

/// All 44 button flags an output state encodes to.
pub open spec fn state_buttons_spec(state: Seq<(AxisCode, i64)>) -> Seq<bool> {
    Seq::new(44, |j: int| button_field_spec(state, j))
}

/// Decode an output state into report fields: each recognized code takes
/// the value of its last entry, every other code is ignored, and absent
/// codes leave their field at its neutral value.
pub fn fill_report(state: &Vec<(AxisCode, i64)>) -> (r: CompositeJoystickReport)
    ensures
        r.wf(),
        r.x as int == axis_field_spec(state@, ABS_X),
        r.y as int == axis_field_spec(state@, ABS_Y),
        r.z as int == axis_field_spec(state@, ABS_Z),
        r.rx as int == axis_field_spec(state@, ABS_RX),
        r.ry as int == axis_field_spec(state@, ABS_RY),
        r.rz as int == axis_field_spec(state@, ABS_RZ),
        r.slider as int == axis_field_spec(state@, ABS_THROTTLE),
        r.dial as int == axis_field_spec(state@, ABS_RUDDER),
        r.hat as int == hat_direction_spec(
            hat_sign_spec(state@, ABS_HAT0X),
            hat_sign_spec(state@, ABS_HAT0Y),
        ),
        r.buttons@ =~= state_buttons_spec(state@),
{
    let mut report = CompositeJoystickReport {
        x: 0,
        y: 0,
        z: 0,
        rx: 0,
        ry: 0,
        rz: 0,
        slider: 0,
        dial: 0,
        hat: 15,
        buttons: empty_buttons(),
    };
    let mut hatx: i64 = 0;
    let mut haty: i64 = 0;
    let mut i: usize = 0;
    while i < state.len()
        invariant
            0 <= i <= state@.len(),
            report.buttons@.len() == 44,
            report.x as int == axis_field_spec(state@.take(i as int), ABS_X),
            report.y as int == axis_field_spec(state@.take(i as int), ABS_Y),
            report.z as int == axis_field_spec(state@.take(i as int), ABS_Z),
            report.rx as int == axis_field_spec(state@.take(i as int), ABS_RX),
            report.ry as int == axis_field_spec(state@.take(i as int), ABS_RY),
            report.rz as int == axis_field_spec(state@.take(i as int), ABS_RZ),
            report.slider as int == axis_field_spec(state@.take(i as int), ABS_THROTTLE),
            report.dial as int == axis_field_spec(state@.take(i as int), ABS_RUDDER),
            hatx == hat_sign_spec(state@.take(i as int), ABS_HAT0X),
            haty == hat_sign_spec(state@.take(i as int), ABS_HAT0Y),
            forall|j: int|
                0 <= j < 44 ==> report.buttons@[j] == button_field_spec(state@.take(i as int), j),
        decreases state@.len() - i,
    {
        let entry: (AxisCode, i64) = state[i];
        let code: AxisCode = entry.0;
        let value: i64 = entry.1;
        if code.ev_type == EV_ABS {
            if code.code == ABS_X {
                report.x = i16_trunc(value);
            } else if code.code == ABS_Y {
                report.y = i16_trunc(value);
            } else if code.code == ABS_Z {
                report.z = i16_trunc(value);
            } else if code.code == ABS_RX {
                report.rx = i16_trunc(value);
            } else if code.code == ABS_RY {
                report.ry = i16_trunc(value);
            } else if code.code == ABS_RZ {
                report.rz = i16_trunc(value);
            } else if code.code == ABS_THROTTLE {
                report.slider = i16_trunc(value);
            } else if code.code == ABS_RUDDER {
                report.dial = i16_trunc(value);
            } else if code.code == ABS_HAT0X {
                hatx = sign_of(value);
            } else if code.code == ABS_HAT0Y {
                haty = sign_of(value);
            }
        } else if code.ev_type == EV_KEY {
            if BTN_TRIGGER <= code.code && code.code <= BTN_BASE6 {
                let j: usize = (code.code - BTN_TRIGGER) as usize;
                report.buttons[j] = value != 0;
            } else if BTN_TRIGGER_HAPPY1 <= code.code && code.code <= BTN_TRIGGER_HAPPY32 {
                let j: usize = 12 + (code.code - BTN_TRIGGER_HAPPY1) as usize;
                report.buttons[j] = value != 0;
            }
        }
        proof {
            lemma_last_value_step(state@, i as int, AxisCode { ev_type: EV_ABS, code: ABS_X });
            lemma_last_value_step(state@, i as int, AxisCode { ev_type: EV_ABS, code: ABS_Y });
            lemma_last_value_step(state@, i as int, AxisCode { ev_type: EV_ABS, code: ABS_Z });
            lemma_last_value_step(state@, i as int, AxisCode { ev_type: EV_ABS, code: ABS_RX });
            lemma_last_value_step(state@, i as int, AxisCode { ev_type: EV_ABS, code: ABS_RY });
            lemma_last_value_step(state@, i as int, AxisCode { ev_type: EV_ABS, code: ABS_RZ });
            lemma_last_value_step(
                state@,
                i as int,
                AxisCode { ev_type: EV_ABS, code: ABS_THROTTLE },
            );
            lemma_last_value_step(state@, i as int, AxisCode { ev_type: EV_ABS, code: ABS_RUDDER });
            lemma_last_value_step(state@, i as int, AxisCode { ev_type: EV_ABS, code: ABS_HAT0X });
            lemma_last_value_step(state@, i as int, AxisCode { ev_type: EV_ABS, code: ABS_HAT0Y });
            assert forall|j: int| 0 <= j < 44 implies report.buttons@[j] == button_field_spec(
                state@.take(i as int + 1),
                j,
            ) by {
                lemma_last_value_step(state@, i as int, button_code_spec(j));
            }
        }
        i = i + 1;
    }
    proof {
        assert(state@.take(state@.len() as int) =~= state@);
    }
    report.hat = hatxy_to_angle(hatx, haty);
    report
}

/// 44 cleared button flags.
fn empty_buttons() -> (r: Vec<bool>)
    ensures
        r@.len() == 44,
        forall|j: int| 0 <= j < 44 ==> !(#[trigger] r@[j]),
{
    let mut v: Vec<bool> = Vec::new();
    let mut i: usize = 0;
    while i < 44
        invariant
            0 <= i <= 44,
            v@.len() == i,
            forall|j: int| 0 <= j < i ==> !(#[trigger] v@[j]),
        decreases 44 - i,
    {
        v.push(false);
        i = i + 1;
    }
    v
}

/// Serialize an output state into the fixed 22-byte report. Entries whose
/// code the wire format does not recognize are ignored; absent codes leave
/// their field at its neutral value (0 for axes and buttons, "no
/// direction" for the hat). The encoding is a pure function of the state:
/// identical input always produces identical bytes.
pub fn make_report(state: &Vec<(AxisCode, i64)>) -> (r: [u8; 22])
    ensures
        r@ == report_bytes_spec(state@),
{
    let report = fill_report(state);
    let bytes = pack_report(&report);
    proof {
        assert(bytes@ =~= report_bytes_spec(state@));
    }
    bytes
}

/// Encoding an empty state yields the neutral report: all-zero numeric
/// fields, the "no direction" hat nibble, and no button bits set.
pub proof fn lemma_empty_report_bytes()
    ensures
        report_bytes_spec(Seq::empty()) =~= seq![
            0u8,
            0,
            0,
            0,
            0,
            0,
            0,
            0,
            0,
            0,
            0,
            0,
            0,
            0,
            0,
            0,
            0x0f,
            0,
            0,
            0,
            0,
            0,
        ],
{
    let s = Seq::<(AxisCode, i64)>::empty();
    assert(state_buttons_spec(s) =~= Seq::new(44, |j: int| false)) by {
        assert forall|j: int| 0 <= j < 44 implies !button_field_spec(s, j) by {
            assert(last_value(s, button_code_spec(j)) is None);
        }
    }
}

/// The report byte that carries button `j`.
pub open spec fn single_button_byte(j: int) -> int {
    if j < 4 {
        16
    } else {
        17 + (j - 4) / 8
    }
}

/// The value of button `j`'s bit within its byte.
pub open spec fn single_button_bit(j: int) -> int {
    if j < 4 {
        if j == 0 {
            16
        } else if j == 1 {
            32
        } else if j == 2 {
            64
        } else {
            128
        }
    } else {
        let t = (j - 4) % 8;
        if t == 0 {
            1
        } else if t == 1 {
            2
        } else if t == 2 {
            4
        } else if t == 3 {
            8
        } else if t == 4 {
            16
        } else if t == 5 {
            32
        } else if t == 6 {
            64
        } else {
            128
        }
    }
}

/// Encoding a state that holds exactly one button entry with a nonzero
/// value sets exactly that button's bit: every byte of the report equals
/// the empty encoding, except that the button's byte additionally carries
/// the button's single bit.
pub proof fn lemma_single_button(c: AxisCode, v: i64)
    requires
        button_index_spec(c) is Some,
        v != 0,
    ensures
        ({
            let j = button_index_spec(c)->Some_0;
            let bytes = report_bytes_spec(seq![(c, v)]);
            let empty = report_bytes_spec(Seq::empty());
            &&& bytes.len() == 22
            &&& forall|k: int|
                0 <= k < 22 && k != single_button_byte(j) ==> bytes[k] == empty[k]
            &&& bytes[single_button_byte(j)] as int == empty[single_button_byte(j)] as int
                + single_button_bit(j)
        }),
{
    let j = button_index_spec(c)->Some_0;
    let s = seq![(c, v)];
    let e = Seq::<(AxisCode, i64)>::empty();
    let bytes = report_bytes_spec(s);
    let empty = report_bytes_spec(e);
    assert(s.drop_last() =~= e);
    assert(last_value(s, c) == Some(v));
    assert(c.ev_type == EV_KEY);
    assert(0 <= j < 44);
    assert(button_code_spec(j) == c);
    assert forall|c2: AxisCode| c2 != c implies last_value(s, c2) is None by {
        assert(last_value(e, c2) is None);
    }
    assert forall|code: u16| true implies axis_field_spec(s, code) == axis_field_spec(e, code)
        && hat_sign_spec(s, code) == hat_sign_spec(e, code) by {
        let c2 = AxisCode { ev_type: EV_ABS, code };
        assert(c2 != c);
        assert(last_value(e, c2) is None);
    }
    let bs = state_buttons_spec(s);
    let be = state_buttons_spec(e);
    assert forall|j2: int| 0 <= j2 < 44 implies bs[j2] == (j2 == j) && !be[j2] by {
        assert(last_value(e, button_code_spec(j2)) is None);
        if j2 != j {
            assert(button_code_spec(j2) != c);
        }
    }
    if j >= 4 {
        vstd::arithmetic::div_mod::lemma_fundamental_div_mod_converse(
            j - 4,
            8,
            (j - 4) / 8,
            (j - 4) % 8,
        );
        vstd::arithmetic::div_mod::lemma_mod_bound(j - 4, 8);
    }
    assert(bytes[16] as int == empty[16] as int + (if j < 4 {
        single_button_bit(j)
    } else {
        0int
    }));
    assert(bytes[17] as int == empty[17] as int + (if 4 <= j < 12 {
        single_button_bit(j)
    } else {
        0int
    }));
    assert(bytes[18] as int == empty[18] as int + (if 12 <= j < 20 {
        single_button_bit(j)
    } else {
        0int
    }));
    assert(bytes[19] as int == empty[19] as int + (if 20 <= j < 28 {
        single_button_bit(j)
    } else {
        0int
    }));
    assert(bytes[20] as int == empty[20] as int + (if 28 <= j < 36 {
        single_button_bit(j)
    } else {
        0int
    }));
    assert(bytes[21] as int == empty[21] as int + (if 36 <= j < 44 {
        single_button_bit(j)
    } else {
        0int
    }));
}

} // verus!
