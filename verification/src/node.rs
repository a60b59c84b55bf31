//! Command-line and runtime-configuration rules shared by the robot nodes.
//!
//! Parsing YAML and building HAL identities stays with the nodes; the rules that decide
//! whether a configuration or a command is acceptable live here.

use vstd::prelude::*;

use crate::names::{compare_names, NameOrder};
use crate::so_arm::joint_name;
use crate::text::{is_blank, is_blank_str};

verus! {

/// The operator lifecycle commands a node accepts.
#[derive(Clone, Copy, Debug, PartialEq, Eq, Structural)]
pub enum LifecycleCommand {
    Calibrate,
    Enable,
    Disable,
}

impl LifecycleCommand {
    /// The command's wire name.
    pub fn name(self) -> (name: &'static str)
        ensures
            name == match self {
                LifecycleCommand::Calibrate => "calibrate",
                LifecycleCommand::Enable => "enable",
                LifecycleCommand::Disable => "disable",
            },
    {
        match self {
            LifecycleCommand::Calibrate => "calibrate",
            LifecycleCommand::Enable => "enable",
            LifecycleCommand::Disable => "disable",
        }
    }
}

/// The lifecycle command a string names, if any.
pub open spec fn parse_lifecycle_spec(s: Seq<char>) -> Option<LifecycleCommand> {
    if s == "calibrate"@ {
        Some(LifecycleCommand::Calibrate)
    } else if s == "enable"@ {
        Some(LifecycleCommand::Enable)
    } else if s == "disable"@ {
        Some(LifecycleCommand::Disable)
    } else {
        None
    }
}

/// Only the explicit commands `calibrate`, `enable` and `disable` are accepted; anything
/// else, or a value that is not a string (`None`), is refused.
pub fn parse_lifecycle(value: Option<&str>) -> (command: Option<LifecycleCommand>)
    ensures
        command == match value {
            Some(s) => parse_lifecycle_spec(s@),
            None => None,
        },
{
    match value {
        Some(s) => {
            if compare_names(s, "calibrate") == NameOrder::Same {
                Some(LifecycleCommand::Calibrate)
            } else if compare_names(s, "enable") == NameOrder::Same {
                Some(LifecycleCommand::Enable)
            } else if compare_names(s, "disable") == NameOrder::Same {
                Some(LifecycleCommand::Disable)
            } else {
                None
            }
        },
        None => None,
    }
}

/// Discovery mode needs an explicit `--discover` among the arguments after the program name.
pub fn is_discovery_request(args: &[&str]) -> (discover: bool)
    ensures
        discover <==> exists|i: int| 1 <= i < args@.len() && (#[trigger] args@[i])@ == "--discover"@,
{
    let mut i: usize = 1;
    while i < args.len()
        invariant
            1 <= i,
            forall|j: int| 1 <= j < i && j < args@.len() ==> (#[trigger] args@[j])@ != "--discover"@,
        decreases args@.len() - i,
    {
        if compare_names(args[i], "--discover") == NameOrder::Same {
            return true;
        }
        i = i + 1;
    }
    false
}

/// The seven B601 motor ids, in canonical order.
pub open spec fn canonical_motor_ids(ids: Seq<u16>) -> bool {
    ids == seq![1u16, 2, 3, 4, 5, 6, 7]
}

fn is_canonical_motor_order(ids: &[u16]) -> (canonical: bool)
    ensures
        canonical == canonical_motor_ids(ids@),
{
    if ids.len() != 7 {
        return false;
    }
    let mut i: usize = 0;
    while i < 7
        invariant
            i <= 7,
            ids@.len() == 7,
            forall|j: int| 0 <= j < i ==> ids@[j] == j + 1,
        decreases 7 - i,
    {
        if ids[i] as usize != i + 1 {
            return false;
        }
        i = i + 1;
    }
    assert(ids@ =~= seq![1u16, 2, 3, 4, 5, 6, 7]);
    true
}

/// A B601-DM runtime configuration uses a serial HAL resource with a nonzero baud rate and
/// read timeout, names a calibration, and lists the seven motors in canonical order.
pub fn dm_runtime_valid(
    transport_is_serial: bool,
    baud_rate: u32,
    read_timeout_ms: u64,
    calibration_id: &str,
    motor_ids: &[u16],
) -> (valid: bool)
    ensures
        valid == (transport_is_serial && baud_rate != 0 && read_timeout_ms != 0 && !is_blank(
            calibration_id@,
        ) && canonical_motor_ids(motor_ids@)),
{
    transport_is_serial && baud_rate != 0 && read_timeout_ms != 0 && !is_blank_str(calibration_id)
        && is_canonical_motor_order(motor_ids)
}

/// A B601-RS runtime configuration uses a CAN HAL resource with a nonzero receive
/// timeout, names a calibration, lists the seven motors in canonical order, and has a
/// valid relative-target cap, valid MIT gains and unit directions for the six arm joints
/// (each as judged by the caller).
pub fn rs_runtime_valid(
    transport_is_can: bool,
    receive_timeout_ms: u64,
    calibration_id: &str,
    motor_ids: &[u16],
    target_cap_valid: bool,
    gains_valid: bool,
    directions_valid: bool,
) -> (valid: bool)
    ensures
        valid == (transport_is_can && receive_timeout_ms != 0 && !is_blank(calibration_id@)
            && canonical_motor_ids(motor_ids@) && target_cap_valid && gains_valid
            && directions_valid),
{
    transport_is_can && receive_timeout_ms != 0 && !is_blank_str(calibration_id)
        && is_canonical_motor_order(motor_ids) && target_cap_valid && gains_valid
        && directions_valid
}

/// The six SO-ARM joints, named in the stable order.
pub open spec fn canonical_joint_names(names: Seq<&str>) -> bool {
    names.len() == 6 && forall|i: int| 0 <= i < 6 ==> (#[trigger] names[i])@ == joint_name(i)@
}

/// Whether `names` lists the six SO-ARM joints in the stable order.
pub fn is_canonical_joint_order(names: &[&str]) -> (canonical: bool)
    ensures
        canonical == canonical_joint_names(names@),
{
    if names.len() != 6 {
        return false;
    }
    let expected: [&'static str; 6] = [
        "shoulder_pan",
        "shoulder_lift",
        "elbow_flex",
        "wrist_flex",
        "wrist_roll",
        "gripper",
    ];
    let mut i: usize = 0;
    while i < 6
        invariant
            i <= 6,
            names@.len() == 6,
            forall|k: int| 0 <= k < 6 ==> expected@[k] == joint_name(k),
            forall|j: int| 0 <= j < i ==> (#[trigger] names@[j])@ == joint_name(j)@,
        decreases 6 - i,
    {
        if compare_names(names[i], expected[i]) != NameOrder::Same {
            return false;
        }
        i = i + 1;
    }
    true
}

/// An SO-ARM runtime configuration uses a serial HAL resource with a nonzero baud rate and
/// read timeout, names a calibration, and lists the six joints in the stable order.
pub fn so_arm_runtime_valid(
    transport_is_serial: bool,
    baud_rate: u32,
    read_timeout_ms: u64,
    calibration_id: &str,
    joint_names: &[&str],
) -> (valid: bool)
    ensures
        valid == (transport_is_serial && baud_rate != 0 && read_timeout_ms != 0 && !is_blank(
            calibration_id@,
        ) && canonical_joint_names(joint_names@)),
{
    transport_is_serial && baud_rate != 0 && read_timeout_ms != 0 && !is_blank_str(calibration_id)
        && is_canonical_joint_order(joint_names)
}

/// What the SO-ARM node does with a dora input, chosen by the input's id.
#[derive(Clone, Copy, Debug, PartialEq, Eq, Structural)]
pub enum SoArmInput {
    /// `calibrate`, `enable` or `disable`.
    Lifecycle(LifecycleCommand),
    /// `tick`: observe and publish the pose.
    Tick,
    /// `action`: apply a joint target.
    Action,
    /// Any other input is ignored.
    Ignored,
}

/// The SO-ARM node's inputs are named after the lifecycle commands, plus `tick` and `action`.
pub fn so_arm_input(id: &str) -> (input: SoArmInput)
    ensures
        input == match parse_lifecycle_spec(id@) {
            Some(c) => SoArmInput::Lifecycle(c),
            None => if id@ == "tick"@ {
                SoArmInput::Tick
            } else if id@ == "action"@ {
                SoArmInput::Action
            } else {
                SoArmInput::Ignored
            },
        },
{
    match parse_lifecycle(Some(id)) {
        Some(c) => SoArmInput::Lifecycle(c),
        None => {
            if compare_names(id, "tick") == NameOrder::Same {
                SoArmInput::Tick
            } else if compare_names(id, "action") == NameOrder::Same {
                SoArmInput::Action
            } else {
                SoArmInput::Ignored
            }
        },
    }
}

/// What a B601 node (DM or RS) does with a dora input, chosen by the input's id.
#[derive(Clone, Copy, Debug, PartialEq, Eq, Structural)]
pub enum B601Input {
    /// `lifecycle`: the payload names the lifecycle command.
    Lifecycle,
    /// `action`: apply a joint target.
    Action,
    /// `tick`: observe and publish the feedback.
    Tick,
    /// Any other input is ignored.
    Ignored,
}

pub fn b601_input(id: &str) -> (input: B601Input)
    ensures
        input == if id@ == "lifecycle"@ {
            B601Input::Lifecycle
        } else if id@ == "action"@ {
            B601Input::Action
        } else if id@ == "tick"@ {
            B601Input::Tick
        } else {
            B601Input::Ignored
        },
{
    if compare_names(id, "lifecycle") == NameOrder::Same {
        B601Input::Lifecycle
    } else if compare_names(id, "action") == NameOrder::Same {
        B601Input::Action
    } else if compare_names(id, "tick") == NameOrder::Same {
        B601Input::Tick
    } else {
        B601Input::Ignored
    }
}

/// An SO-ARM action message names the six joints in the stable order and carries six
/// positions; the joint order is checked first.
pub fn check_so_arm_action_shape(joint_names: &[&str], position_count: usize) -> (result: Result<
    (),
    &'static str,
>)
    ensures
        !canonical_joint_names(joint_names@) ==> result == Err::<(), &'static str>(
            "SO-ARM action joint order does not match the versioned contract",
        ),
        canonical_joint_names(joint_names@) && position_count != 6 ==> result == Err::<
            (),
            &'static str,
        >("SO-ARM action must contain six positions"),
        result is Ok <==> canonical_joint_names(joint_names@) && position_count == 6,
{
    if !is_canonical_joint_order(joint_names) {
        return Err("SO-ARM action joint order does not match the versioned contract");
    }
    if position_count != 6 {
        return Err("SO-ARM action must contain six positions");
    }
    Ok(())
}

/// The name of B601-RS joint `index`, in the order of the v1 action contract.
pub open spec fn rs_joint_name(index: int) -> &'static str {
    if index == 0 {
        "shoulder_pan"
    } else if index == 1 {
        "shoulder_lift"
    } else if index == 2 {
        "elbow_flex"
    } else if index == 3 {
        "wrist_flex"
    } else if index == 4 {
        "wrist_yaw"
    } else if index == 5 {
        "wrist_roll"
    } else {
        "gripper"
    }
}

/// A B601-RS action follows the v1 position contract: schema `v1`, control mode `position`
/// and the seven joints in contract order.
pub fn rs_action_matches_contract(
    schema_version: &str,
    control_mode: &str,
    joint_names: &[&str],
) -> (matches: bool)
    ensures
        matches == (schema_version@ == "v1"@ && control_mode@ == "position"@ && joint_names@.len()
            == 7 && forall|i: int|
            0 <= i < 7 ==> (#[trigger] joint_names@[i])@ == rs_joint_name(i)@),
{
    if compare_names(schema_version, "v1") != NameOrder::Same || compare_names(
        control_mode,
        "position",
    ) != NameOrder::Same || joint_names.len() != 7 {
        return false;
    }
    let expected: [&'static str; 7] = [
        "shoulder_pan",
        "shoulder_lift",
        "elbow_flex",
        "wrist_flex",
        "wrist_yaw",
        "wrist_roll",
        "gripper",
    ];
    let mut i: usize = 0;
    while i < 7
        invariant
            i <= 7,
            joint_names@.len() == 7,
            schema_version@ == "v1"@,
            control_mode@ == "position"@,
            forall|k: int| 0 <= k < 7 ==> expected@[k] == rs_joint_name(k),
            forall|j: int| 0 <= j < i ==> (#[trigger] joint_names@[j])@ == rs_joint_name(j)@,
        decreases 7 - i,
    {
        if compare_names(joint_names[i], expected[i]) != NameOrder::Same {
            return false;
        }
        i = i + 1;
    }
    true
}

} // verus!
