use dora_lerobot_hal::node::{
    b601_input, check_so_arm_action_shape, dm_runtime_valid, is_canonical_joint_order,
    is_discovery_request, parse_lifecycle, rs_action_matches_contract, rs_runtime_valid,
    so_arm_input, so_arm_runtime_valid, B601Input, LifecycleCommand, SoArmInput,
};
use dora_lerobot_hal::so_arm::{is_recoverable_action_error, SoArmError, SoArmState};
use dora_lerobot_hal::text::is_blank_str;

const JOINTS: [&str; 6] = [
    "shoulder_pan",
    "shoulder_lift",
    "elbow_flex",
    "wrist_flex",
    "wrist_roll",
    "gripper",
];

#[test]
fn discovery_mode_requires_an_explicit_flag() {
    assert!(is_discovery_request(&["so-arm-hal-node", "--discover"]));
    assert!(!is_discovery_request(&["so-arm-hal-node"]));
    assert!(!is_discovery_request(&["so-arm-hal-node", "--unknown"]));
}

#[test]
fn dm_node_lifecycle_and_discovery_are_explicit() {
    assert!(is_discovery_request(&["b601-dm-hal-node", "--discover"]));
    assert_eq!(
        parse_lifecycle(Some("enable")).map(LifecycleCommand::name),
        Some("enable")
    );
    assert!(parse_lifecycle(Some("zero")).is_none());
}

#[test]
fn only_explicit_safe_lifecycle_commands_are_accepted() {
    assert_eq!(parse_lifecycle(Some("calibrate")), Some(LifecycleCommand::Calibrate));
    assert_eq!(parse_lifecycle(Some("enable")), Some(LifecycleCommand::Enable));
    assert_eq!(parse_lifecycle(Some("disable")), Some(LifecycleCommand::Disable));
    assert!(parse_lifecycle(Some("move")).is_none());
    // A JSON object is not a string.
    assert!(parse_lifecycle(None).is_none());
}

#[test]
fn disabled_or_stale_actions_are_rejected_without_terminating_the_node() {
    assert!(is_recoverable_action_error(&SoArmError::InvalidState {
        operation: "apply action",
        state: SoArmState::ConnectedDisabled,
    }));
    assert!(is_recoverable_action_error(&SoArmError::InvalidTimestamp {
        timestamp_ns: 0,
    }));
}

#[test]
fn configuration_and_range_errors_are_not_recoverable() {
    assert!(!is_recoverable_action_error(&SoArmError::CalibrationRange {
        joint: "gripper"
    }));
    assert!(!is_recoverable_action_error(&SoArmError::InvalidConfiguration(
        "robot id is empty"
    )));
}

#[test]
fn discovery_flag_as_program_name_does_not_count() {
    assert!(!is_discovery_request(&["--discover"]));
    assert!(is_discovery_request(&["node", "--x", "--discover"]));
    assert!(!is_discovery_request(&[]));
}

#[test]
fn lifecycle_names_match_the_wire_names() {
    assert_eq!(LifecycleCommand::Calibrate.name(), "calibrate");
    assert_eq!(LifecycleCommand::Disable.name(), "disable");
    assert!(parse_lifecycle(Some("Enable")).is_none());
    assert!(parse_lifecycle(Some("enable ")).is_none());
}

#[test]
fn dm_node_requires_stable_hal_resource_and_canonical_motor_order() {
    assert!(dm_runtime_valid(true, 921600, 20, "b601-dm-v1", &[1, 2, 3, 4, 5, 6, 7]));
    assert!(!dm_runtime_valid(true, 921600, 20, "b601-dm-v1", &[2, 1, 3, 4, 5, 6, 7]));
    assert!(!dm_runtime_valid(false, 921600, 20, "b601-dm-v1", &[1, 2, 3, 4, 5, 6, 7]));
    assert!(!dm_runtime_valid(true, 0, 20, "b601-dm-v1", &[1, 2, 3, 4, 5, 6, 7]));
    assert!(!dm_runtime_valid(true, 921600, 0, "b601-dm-v1", &[1, 2, 3, 4, 5, 6, 7]));
    assert!(!dm_runtime_valid(true, 921600, 20, "  ", &[1, 2, 3, 4, 5, 6, 7]));
    assert!(!dm_runtime_valid(true, 921600, 20, "b601-dm-v1", &[1, 2, 3, 4, 5, 6]));
}

#[test]
fn rs_config_requires_can_transport_and_canonical_motors() {
    let ids = [1, 2, 3, 4, 5, 6, 7];
    assert!(rs_runtime_valid(true, 20, "b601-rs-v1", &ids, true, true, true));
    assert!(!rs_runtime_valid(false, 20, "b601-rs-v1", &ids, true, true, true));
    assert!(!rs_runtime_valid(true, 0, "b601-rs-v1", &ids, true, true, true));
    assert!(!rs_runtime_valid(true, 20, "", &ids, true, true, true));
    assert!(!rs_runtime_valid(true, 20, "b601-rs-v1", &[1, 2, 3, 4, 5, 7, 6], true, true, true));
    assert!(!rs_runtime_valid(true, 20, "b601-rs-v1", &ids, false, true, true));
    assert!(!rs_runtime_valid(true, 20, "b601-rs-v1", &ids, true, false, true));
    assert!(!rs_runtime_valid(true, 20, "b601-rs-v1", &ids, true, true, false));
}

/// The caller's verdict on the arm directions: each of the six arm joints turns by +1 or -1;
/// the gripper's factor is free.
fn arm_directions_valid(directions: [f32; 7]) -> bool {
    directions[..6].iter().all(|d| *d == 1.0 || *d == -1.0)
}

#[test]
fn rs_config_rejects_non_unit_arm_direction() {
    let ids = [1, 2, 3, 4, 5, 6, 7];
    let valid = [1.0, 1.0, -1.0, -1.0, -1.0, 1.0, 6.0];
    let invalid = [0.5, 1.0, -1.0, -1.0, -1.0, 1.0, 6.0];
    assert!(rs_runtime_valid(true, 20, "b601-rs-v1", &ids, true, true, arm_directions_valid(valid)));
    assert!(!rs_runtime_valid(true, 20, "b601-rs-v1", &ids, true, true, arm_directions_valid(invalid)));
}

#[test]
fn so_arm_runtime_rules_require_the_canonical_joint_order() {
    assert!(so_arm_runtime_valid(true, 1_000_000, 20, "so-arm-a-v1", &JOINTS));
    let mut swapped = JOINTS;
    swapped.swap(0, 1);
    assert!(!so_arm_runtime_valid(true, 1_000_000, 20, "so-arm-a-v1", &swapped));
    assert!(!so_arm_runtime_valid(true, 1_000_000, 20, "so-arm-a-v1", &JOINTS[..5]));
    assert!(!so_arm_runtime_valid(true, 1_000_000, 20, "\t\n", &JOINTS));
    assert!(!so_arm_runtime_valid(false, 1_000_000, 20, "so-arm-a-v1", &JOINTS));
    assert!(is_canonical_joint_order(&JOINTS));
}

#[test]
fn so_arm_inputs_are_named_after_lifecycle_commands() {
    assert_eq!(so_arm_input("calibrate"), SoArmInput::Lifecycle(LifecycleCommand::Calibrate));
    assert_eq!(so_arm_input("enable"), SoArmInput::Lifecycle(LifecycleCommand::Enable));
    assert_eq!(so_arm_input("disable"), SoArmInput::Lifecycle(LifecycleCommand::Disable));
    assert_eq!(so_arm_input("tick"), SoArmInput::Tick);
    assert_eq!(so_arm_input("action"), SoArmInput::Action);
    assert_eq!(so_arm_input("lifecycle"), SoArmInput::Ignored);
}

#[test]
fn b601_inputs_are_lifecycle_action_and_tick() {
    assert_eq!(b601_input("lifecycle"), B601Input::Lifecycle);
    assert_eq!(b601_input("action"), B601Input::Action);
    assert_eq!(b601_input("tick"), B601Input::Tick);
    assert_eq!(b601_input("enable"), B601Input::Ignored);
}

#[test]
fn so_arm_actions_need_the_joint_order_then_six_positions() {
    assert_eq!(check_so_arm_action_shape(&JOINTS, 6), Ok(()));
    assert_eq!(
        check_so_arm_action_shape(&JOINTS, 5),
        Err("SO-ARM action must contain six positions")
    );
    let mut swapped = JOINTS;
    swapped.swap(4, 5);
    assert_eq!(
        check_so_arm_action_shape(&swapped, 5),
        Err("SO-ARM action joint order does not match the versioned contract")
    );
}

#[test]
fn rs_actions_follow_the_v1_position_contract() {
    let joints = [
        "shoulder_pan",
        "shoulder_lift",
        "elbow_flex",
        "wrist_flex",
        "wrist_yaw",
        "wrist_roll",
        "gripper",
    ];
    assert!(rs_action_matches_contract("v1", "position", &joints));
    assert!(!rs_action_matches_contract("v2", "position", &joints));
    assert!(!rs_action_matches_contract("v1", "velocity", &joints));
    assert!(!rs_action_matches_contract("v1", "position", &joints[..6]));
    let mut swapped = joints;
    swapped.swap(0, 6);
    assert!(!rs_action_matches_contract("v1", "position", &swapped));
}

#[test]
fn blank_text_is_only_white_space() {
    assert!(is_blank_str(""));
    assert!(is_blank_str(" \t\r\n"));
    assert!(is_blank_str("\u{3000}\u{a0}"));
    assert!(!is_blank_str(" a "));
    assert!(!is_blank_str("x"));
    assert!(is_blank_str("\u{85}\u{1680}\u{2000}\u{200a}\u{2028}\u{2029}\u{202f}\u{205f}"));
    assert!(!is_blank_str("\u{200b}"));
    assert!(!is_blank_str("\u{1c}"));
    for c in ['\u{0}', 'a', '\u{200b}', '\u{feff}', '\u{180e}', '\u{85}', '\u{3000}', '\t'] {
        assert_eq!(is_blank_str(&c.to_string()), c.is_whitespace());
    }
}
