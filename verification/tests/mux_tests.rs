use composite_joystick::joystick_mux::{
    AxisCode, AxisCombineFn, AxisUpdate, InputAxis, InputAxisId, InputEventData, JoystickId,
    JoystickMux, OutputAxisId, OutputState, EV_ABS,
};
use composite_joystick::report::{ABS_X, ABS_Y};

fn abs_code(code: u16) -> AxisCode {
    AxisCode { ev_type: EV_ABS, code }
}

fn abs_update(joystick: u16, code: u16, value: i32) -> AxisUpdate {
    AxisUpdate {
        joystick: JoystickId(joystick),
        event: InputEventData { code: abs_code(code), value },
    }
}

#[test]
fn test_inputless_axis() {
    let mut m = JoystickMux::new(None);
    m.configure_axis(
        OutputAxisId(abs_code(ABS_X)),
        AxisCombineFn::LargestMagnitude { inputs: vec![] },
    );
    assert_eq!(
        m.output(),
        OutputState {
            axes: vec![(OutputAxisId(abs_code(ABS_X)), 0)],
        }
    );
}

#[test]
fn test_axis_with_no_data() {
    let mut m = JoystickMux::new(None);
    m.configure_axis(
        OutputAxisId(abs_code(ABS_X)),
        AxisCombineFn::LargestMagnitude {
            inputs: vec![InputAxis {
                id: InputAxisId {
                    joystick: JoystickId(0),
                    axis: abs_code(ABS_X),
                },
                lower_bound: -32767,
                upper_bound: 32767,
            }],
        },
    );
    assert_eq!(
        m.output(),
        OutputState {
            axes: vec![(OutputAxisId(abs_code(ABS_X)), 0)],
        }
    );
}

#[test]
fn test_axis_with_some_data() {
    let mut m = JoystickMux::new(None);
    m.configure_axis(
        OutputAxisId(abs_code(ABS_X)),
        AxisCombineFn::LargestMagnitude {
            inputs: vec![InputAxis {
                id: InputAxisId {
                    joystick: JoystickId(0),
                    axis: abs_code(ABS_X),
                },
                lower_bound: -32767,
                upper_bound: 32767,
            }],
        },
    );
    m.update(abs_update(0, ABS_X, 5));
    assert_eq!(
        m.output(),
        OutputState {
            axes: vec![(OutputAxisId(abs_code(ABS_X)), 5)],
        }
    );
}

#[test]
fn test_largest_magnitude() {
    let mut m = JoystickMux::new(None);
    m.configure_axis(
        OutputAxisId(abs_code(ABS_X)),
        AxisCombineFn::LargestMagnitude {
            inputs: vec![
                InputAxis {
                    id: InputAxisId {
                        joystick: JoystickId(0),
                        axis: abs_code(ABS_X),
                    },
                    lower_bound: -32767,
                    upper_bound: 32767,
                },
                InputAxis {
                    id: InputAxisId {
                        joystick: JoystickId(0),
                        axis: abs_code(ABS_Y),
                    },
                    lower_bound: -32767,
                    upper_bound: 32767,
                },
            ],
        },
    );
    m.update(abs_update(0, ABS_X, 5));
    m.update(abs_update(0, ABS_Y, 12));
    assert_eq!(
        m.output(),
        OutputState {
            axes: vec![(OutputAxisId(abs_code(ABS_X)), 12)],
        }
    );
}

#[test]
fn test_negative_magnitude() {
    let mut m = JoystickMux::new(None);
    m.configure_axis(
        OutputAxisId(abs_code(ABS_X)),
        AxisCombineFn::LargestMagnitude {
            inputs: vec![
                InputAxis {
                    id: InputAxisId {
                        joystick: JoystickId(0),
                        axis: abs_code(ABS_X),
                    },
                    lower_bound: -32767,
                    upper_bound: 32767,
                },
                InputAxis {
                    id: InputAxisId {
                        joystick: JoystickId(0),
                        axis: abs_code(ABS_Y),
                    },
                    lower_bound: -32767,
                    upper_bound: 32767,
                },
            ],
        },
    );
    m.update(abs_update(0, ABS_X, 5));
    m.update(abs_update(0, ABS_Y, -12));
    assert_eq!(
        m.output(),
        OutputState {
            axes: vec![(OutputAxisId(abs_code(ABS_X)), -12)],
        }
    );
}

#[test]
fn test_input_range() {
    let mut m = JoystickMux::new(None);
    m.configure_axis(
        OutputAxisId(abs_code(ABS_X)),
        AxisCombineFn::LargestMagnitude {
            inputs: vec![InputAxis {
                id: InputAxisId {
                    joystick: JoystickId(0),
                    axis: abs_code(ABS_X),
                },
                lower_bound: -5,
                upper_bound: 5,
            }],
        },
    );
    m.update(abs_update(0, ABS_X, 0));
    assert_eq!(
        m.output(),
        OutputState {
            axes: vec![(OutputAxisId(abs_code(ABS_X)), 0)],
        }
    );
    m.update(abs_update(0, ABS_X, 5));
    assert_eq!(
        m.output(),
        OutputState {
            axes: vec![(OutputAxisId(abs_code(ABS_X)), 32767)],
        }
    );
    m.update(abs_update(0, ABS_X, -5));
    assert_eq!(
        m.output(),
        OutputState {
            axes: vec![(OutputAxisId(abs_code(ABS_X)), -32767)],
        }
    );
    m.update(abs_update(0, ABS_X, 1));
    assert_eq!(
        m.output(),
        OutputState {
            axes: vec![(OutputAxisId(abs_code(ABS_X)), 6553)],
        }
    );
    m.update(abs_update(0, ABS_X, -1));
    assert_eq!(
        m.output(),
        OutputState {
            axes: vec![(OutputAxisId(abs_code(ABS_X)), -6554)],
        }
    );
}

#[test]
fn test_inverted_input_range() {
    let mut m = JoystickMux::new(None);
    m.configure_axis(
        OutputAxisId(abs_code(ABS_X)),
        AxisCombineFn::LargestMagnitude {
            inputs: vec![InputAxis {
                id: InputAxisId {
                    joystick: JoystickId(0),
                    axis: abs_code(ABS_X),
                },
                lower_bound: 5,
                upper_bound: -5,
            }],
        },
    );
    m.update(abs_update(0, ABS_X, 5));
    assert_eq!(
        m.output(),
        OutputState {
            axes: vec![(OutputAxisId(abs_code(ABS_X)), -32767)],
        }
    );
    m.update(abs_update(0, ABS_X, -5));
    assert_eq!(
        m.output(),
        OutputState {
            axes: vec![(OutputAxisId(abs_code(ABS_X)), 32767)],
        }
    );
}

#[test]
fn test_inverted_range_zero_stays_zero() {
    let mut m = JoystickMux::new(None);
    m.configure_axis(
        OutputAxisId(abs_code(ABS_X)),
        AxisCombineFn::LargestMagnitude {
            inputs: vec![InputAxis {
                id: InputAxisId {
                    joystick: JoystickId(0),
                    axis: abs_code(ABS_X),
                },
                lower_bound: 5,
                upper_bound: -5,
            }],
        },
    );
    m.update(abs_update(0, ABS_X, 0));
    assert_eq!(
        m.output(),
        OutputState {
            axes: vec![(OutputAxisId(abs_code(ABS_X)), 0)],
        }
    );
}

#[test]
fn test_tie_later_input_wins() {
    let mut m = JoystickMux::new(None);
    m.configure_axis(
        OutputAxisId(abs_code(ABS_X)),
        AxisCombineFn::LargestMagnitude {
            inputs: vec![
                InputAxis {
                    id: InputAxisId {
                        joystick: JoystickId(0),
                        axis: abs_code(ABS_X),
                    },
                    lower_bound: -32767,
                    upper_bound: 32767,
                },
                InputAxis {
                    id: InputAxisId {
                        joystick: JoystickId(0),
                        axis: abs_code(ABS_Y),
                    },
                    lower_bound: -32767,
                    upper_bound: 32767,
                },
            ],
        },
    );
    // Equal magnitude, opposite sign: the later-declared input's value wins.
    m.update(abs_update(0, ABS_X, 12));
    m.update(abs_update(0, ABS_Y, -12));
    assert_eq!(
        m.output(),
        OutputState {
            axes: vec![(OutputAxisId(abs_code(ABS_X)), -12)],
        }
    );
}

#[test]
fn test_out_of_range_raw_clamps() {
    let mut m = JoystickMux::new(None);
    m.configure_axis(
        OutputAxisId(abs_code(ABS_X)),
        AxisCombineFn::LargestMagnitude {
            inputs: vec![InputAxis {
                id: InputAxisId {
                    joystick: JoystickId(0),
                    axis: abs_code(ABS_X),
                },
                lower_bound: -32767,
                upper_bound: 32767,
            }],
        },
    );
    // A raw value beyond the declared range is clamped into the output
    // range, not extrapolated.
    m.update(abs_update(0, ABS_X, 40000));
    assert_eq!(
        m.output(),
        OutputState {
            axes: vec![(OutputAxisId(abs_code(ABS_X)), 32767)],
        }
    );
    m.update(abs_update(0, ABS_X, -40000));
    assert_eq!(
        m.output(),
        OutputState {
            axes: vec![(OutputAxisId(abs_code(ABS_X)), -32767)],
        }
    );
}

#[test]
fn test_snapshot_idempotent() {
    let mut m = JoystickMux::new(None);
    m.configure_axis(
        OutputAxisId(abs_code(ABS_X)),
        AxisCombineFn::LargestMagnitude {
            inputs: vec![InputAxis {
                id: InputAxisId {
                    joystick: JoystickId(0),
                    axis: abs_code(ABS_X),
                },
                lower_bound: -5,
                upper_bound: 5,
            }],
        },
    );
    m.update(abs_update(0, ABS_X, 3));
    assert_eq!(m.output(), m.output());
}

#[test]
fn test_reconfigure_replaces_axis() {
    let mut m = JoystickMux::new(None);
    let x_input = InputAxis {
        id: InputAxisId {
            joystick: JoystickId(0),
            axis: abs_code(ABS_X),
        },
        lower_bound: -32767,
        upper_bound: 32767,
    };
    m.configure_axis(
        OutputAxisId(abs_code(ABS_X)),
        AxisCombineFn::LargestMagnitude { inputs: vec![] },
    );
    m.configure_axis(
        OutputAxisId(abs_code(ABS_X)),
        AxisCombineFn::LargestMagnitude {
            inputs: vec![x_input],
        },
    );
    m.update(abs_update(0, ABS_X, 7));
    assert_eq!(
        m.output(),
        OutputState {
            axes: vec![(OutputAxisId(abs_code(ABS_X)), 7)],
        }
    );
}

#[test]
fn test_sync_update_delivers_snapshot() {
    let (sender, receiver) = crossbeam_channel::bounded(5);
    let mut m = JoystickMux::new(Some(sender));
    m.configure_axis(
        OutputAxisId(abs_code(ABS_X)),
        AxisCombineFn::LargestMagnitude {
            inputs: vec![InputAxis {
                id: InputAxisId {
                    joystick: JoystickId(0),
                    axis: abs_code(ABS_X),
                },
                lower_bound: -32767,
                upper_bound: 32767,
            }],
        },
    );
    m.update(abs_update(0, ABS_X, 9));
    let sync = AxisUpdate {
        joystick: JoystickId(0),
        event: InputEventData {
            code: AxisCode { ev_type: 0, code: 0 },
            value: 0,
        },
    };
    assert!(m.update(sync));
    let delivered = receiver.try_recv().expect("no snapshot was delivered");
    assert_eq!(
        delivered,
        OutputState {
            axes: vec![(OutputAxisId(abs_code(ABS_X)), 9)],
        }
    );
}

#[test]
fn test_neg_swaps_bounds() {
    let axis = InputAxis {
        id: InputAxisId {
            joystick: JoystickId(3),
            axis: abs_code(ABS_X),
        },
        lower_bound: -7,
        upper_bound: 11,
    };
    let flipped = axis.neg();
    assert_eq!(flipped.id, axis.id);
    assert_eq!(flipped.lower_bound, 11);
    assert_eq!(flipped.upper_bound, -7);
}

#[test]
fn test_sort_orders_entries() {
    let state = OutputState::new(vec![
        (OutputAxisId(abs_code(ABS_Y)), 2),
        (OutputAxisId(abs_code(ABS_X)), 1),
    ]);
    assert_eq!(
        state,
        OutputState {
            axes: vec![
                (OutputAxisId(abs_code(ABS_X)), 1),
                (OutputAxisId(abs_code(ABS_Y)), 2),
            ],
        }
    );
}
