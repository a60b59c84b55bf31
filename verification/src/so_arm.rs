//! The SO-ARM robot adapter: calibration arithmetic and the lifecycle and safety decisions
//! above the Feetech bus.
//!
//! The adapter is a state machine over bus transactions: it asks its owner to run one
//! transaction on the bus at a time and decides what comes next from the outcome. Angles
//! (floating point) stay with the owner; the adapter works in servo ticks.

use vstd::prelude::*;

use crate::feetech::FeetechError;
use crate::feetech_bus::{BusReply, BusRequest, FeetechBus};
use crate::text::{is_blank, is_blank_str};

verus! {

/// Ticks in one turn of a Feetech STS3215 servo.
pub const SO_ARM_TICKS_PER_TURN: u16 = 4096;

/// Stable joint ordering used by SO100 and SO101 adapters and LeRobot bridges.
pub const SO_ARM_JOINTS: [&'static str; 6] = [
    "shoulder_pan",
    "shoulder_lift",
    "elbow_flex",
    "wrist_flex",
    "wrist_roll",
    "gripper",
];

/// The name of joint `index` in the stable SO-ARM order.
pub open spec fn joint_name(index: int) -> &'static str {
    if index == 0 {
        "shoulder_pan"
    } else if index == 1 {
        "shoulder_lift"
    } else if index == 2 {
        "elbow_flex"
    } else if index == 3 {
        "wrist_flex"
    } else if index == 4 {
        "wrist_roll"
    } else {
        "gripper"
    }
}

/// Maps a robot-space joint angle to a calibrated Feetech position tick.
#[derive(Clone, Copy, Debug, PartialEq, Eq, Structural)]
pub struct JointCalibration {
    pub zero_tick: u16,
    pub direction: i8,
}

/// A calibration is usable when its zero lies within one turn and its direction is a unit.
pub open spec fn calibration_valid(c: JointCalibration) -> bool {
    c.zero_tick < SO_ARM_TICKS_PER_TURN && (c.direction == 1 || c.direction == -1)
}

/// The tick a calibrated joint is commanded to for an angle of `offset` ticks from zero.
pub open spec fn commanded_tick(c: JointCalibration, offset: i32) -> int {
    c.zero_tick + c.direction * offset
}

/// The signed distance of a measured tick from the calibrated zero, taken the short way
/// round once: a difference beyond half a turn is folded back by one turn.
pub open spec fn tick_offset(c: JointCalibration, ticks: u16) -> int {
    let delta = ticks - c.zero_tick;
    if delta > 2048 {
        delta - 4096
    } else if delta < -2048 {
        delta + 4096
    } else {
        delta
    }
}

impl JointCalibration {
    pub fn new(zero_tick: u16, direction: i8) -> (c: Self)
        ensures
            c.zero_tick == zero_tick,
            c.direction == direction,
    {
        JointCalibration { zero_tick, direction }
    }

    pub fn validate(self) -> (valid: bool)
        ensures
            valid == calibration_valid(self),
    {
        self.zero_tick < SO_ARM_TICKS_PER_TURN && (self.direction == -1 || self.direction == 1)
    }

    /// The single-turn tick for an angle of `offset` ticks from zero, when it lies within
    /// one turn.
    pub fn tick_for_offset(self, offset: i32) -> (tick: Option<u16>)
        ensures
            tick is Some <==> 0 <= commanded_tick(self, offset) < SO_ARM_TICKS_PER_TURN,
            tick matches Some(t) ==> t == commanded_tick(self, offset),
    {
        let d = self.direction as i64;
        let o = offset as i64;
        assert(-0x100_0000_0000 <= d * o <= 0x100_0000_0000) by (nonlinear_arith)
            requires
                -128 <= d <= 127,
                -0x8000_0000 <= o <= 0x7fff_ffff,
        ;
        let tick: i64 = self.zero_tick as i64 + d * o;
        if 0 <= tick && tick < SO_ARM_TICKS_PER_TURN as i64 {
            Some(tick as u16)
        } else {
            None
        }
    }

    /// The signed offset of a measured tick from the calibrated zero.
    pub fn offset_of_ticks(self, ticks: u16) -> (offset: i32)
        ensures
            offset == tick_offset(self, ticks),
    {
        let mut delta: i32 = ticks as i32 - self.zero_tick as i32;
        if delta > 2048 {
            delta = delta - 4096;
        } else if delta < -2048 {
            delta = delta + 4096;
        }
        delta
    }
}

#[derive(Clone, Copy, Debug, PartialEq, Eq, Structural)]
pub enum SoArmState {
    Disconnected,
    ConnectedUncalibrated,
    ConnectedDisabled,
    Enabled,
}

#[derive(Debug)]
pub enum SoArmError {
    Feetech(Box<FeetechError>),
    InvalidConfiguration(&'static str),
    InvalidState { operation: &'static str, state: SoArmState },
    InvalidTimestamp { timestamp_ns: u64 },
    CalibrationRange { joint: &'static str },
}

/// Safety rejections are reported to the workflow without ending the node.
pub fn is_recoverable_action_error(error: &SoArmError) -> (recoverable: bool)
    ensures
        recoverable <==> (*error is InvalidState || *error is InvalidTimestamp),
{
    match error {
        SoArmError::InvalidState { .. } | SoArmError::InvalidTimestamp { .. } => true,
        _ => false,
    }
}

/// Checks an SO-ARM configuration: a robot id that is not blank, valid joint limits (as
/// judged by the caller), and six valid calibrations, reported in that order.
pub fn check_so_arm_config(
    robot_id: &str,
    limits_valid: bool,
    calibration: &[JointCalibration; 6],
) -> (result: Result<(), SoArmError>)
    ensures
        is_blank(robot_id@) ==> (result matches Err(SoArmError::InvalidConfiguration(m))
            && m == "robot id is empty"),
        !is_blank(robot_id@) && !limits_valid ==> (result matches Err(
            SoArmError::InvalidConfiguration(m),
        ) && m == "invalid joint limit"),
        !is_blank(robot_id@) && limits_valid && !(forall|i: int|
            0 <= i < 6 ==> calibration_valid(#[trigger] calibration@[i])) ==> (result matches Err(
            SoArmError::InvalidConfiguration(m),
        ) && m == "invalid joint calibration"),
        result is Ok <==> !is_blank(robot_id@) && limits_valid && forall|i: int|
            0 <= i < 6 ==> calibration_valid(#[trigger] calibration@[i]),
{
    if is_blank_str(robot_id) {
        return Err(SoArmError::InvalidConfiguration("robot id is empty"));
    }
    if !limits_valid {
        return Err(SoArmError::InvalidConfiguration("invalid joint limit"));
    }
    let mut i: usize = 0;
    while i < 6
        invariant
            i <= 6,
            !is_blank(robot_id@),
            limits_valid,
            forall|j: int| 0 <= j < i ==> calibration_valid(#[trigger] calibration@[j]),
        decreases 6 - i,
    {
        if !calibration[i].validate() {
            return Err(SoArmError::InvalidConfiguration("invalid joint calibration"));
        }
        i = i + 1;
    }
    Ok(())
}

/// An adapter operation that needs bus transactions.
pub enum SoArmOperation {
    /// Connect in a safe state: torque is disabled before the adapter becomes usable.
    Connect,
    /// Read the current pose, then enable torque; `timestamp_ns` starts rate limiting.
    Enable { timestamp_ns: u64 },
    /// Read the current pose.
    Observe,
    /// Write a goal given as tick offsets from each joint's calibrated zero.
    ApplyAction { timestamp_ns: u64, offsets: [i32; 6] },
    /// Disable torque.
    SafeStop,
    /// Disable torque, then consider the arm disconnected.
    Disconnect,
}

/// What the owner reports to the adapter.
pub enum SoArmEvent {
    Begin(SoArmOperation),
    /// The requested bus transaction finished with this outcome.
    BusDone(Result<BusReply, FeetechError>),
}

/// What a finished operation yields.
#[derive(Clone, Copy, Debug, PartialEq, Eq)]
pub enum SoArmReply {
    Done,
    /// Present positions, in joint order.
    Pose([u16; 6]),
}

/// What the adapter asks of its owner next.
pub enum SoArmAction {
    /// Run this transaction on the bus.
    Bus(BusRequest),
    Finished(Result<SoArmReply, SoArmError>),
}

/// The transaction the adapter is waiting for.
#[derive(Clone, Copy, Debug, PartialEq, Eq, Structural)]
pub enum SoArmPending {
    Idle,
    Connecting,
    /// Reading joint `index`; `enable_at` is the enable timestamp when the pose is read
    /// to enable torque, `None` when it is read to observe.
    Reading { index: usize, enable_at: Option<u64> },
    EnablingTorque { timestamp_ns: u64 },
    WritingGoal { timestamp_ns: u64 },
    Stopping { disconnect: bool },
}

/// The spec-level description of an action.
pub enum SoArmPlan {
    SetTorque(bool),
    ReadJoint(int),
    WriteGoal(Seq<u16>),
    FinishedDone,
    FinishedPose(Seq<u16>),
    FinishedErr(SoArmError),
}

pub open spec fn so_action_is(action: SoArmAction, plan: SoArmPlan) -> bool {
    match (action, plan) {
        (SoArmAction::Bus(BusRequest::SetTorque(b)), SoArmPlan::SetTorque(c)) => b == c,
        (SoArmAction::Bus(BusRequest::ReadPosition(name)), SoArmPlan::ReadJoint(i)) => name@
            == joint_name(i)@,
        (SoArmAction::Bus(BusRequest::WriteGoal(goals)), SoArmPlan::WriteGoal(ticks)) => {
            &&& goals@.len() == 6
            &&& ticks.len() == 6
            &&& forall|i: int|
                0 <= i < 6 ==> (#[trigger] goals@[i]).0@ == joint_name(i)@ && goals@[i].1 == ticks[i]
        },
        (SoArmAction::Finished(Ok(SoArmReply::Done)), SoArmPlan::FinishedDone) => true,
        (SoArmAction::Finished(Ok(SoArmReply::Pose(p))), SoArmPlan::FinishedPose(q)) => p@ == q,
        (SoArmAction::Finished(Err(e)), SoArmPlan::FinishedErr(f)) => e == f,
        _ => false,
    }
}

/// The adapter's observable condition.
pub struct SoArmModel {
    pub state: SoArmState,
    pub calibrated: bool,
    /// The timestamp of the last enable or applied action; rate limiting starts from it.
    pub last_action_ns: Option<u64>,
    pub pending: SoArmPending,
    /// Positions read so far, in joint order.
    pub ticks: Seq<u16>,
}

pub open spec fn invalid_state(operation: &'static str, state: SoArmState) -> SoArmError {
    SoArmError::InvalidState { operation, state }
}

pub open spec fn so_mismatch() -> SoArmError {
    SoArmError::Feetech(
        Box::new(FeetechError::Packet("transport event does not answer the pending request")),
    )
}

/// The state a safe stop leaves: calibrated-disabled if a calibration was accepted.
pub open spec fn so_stopped_state(calibrated: bool) -> SoArmState {
    if calibrated {
        SoArmState::ConnectedDisabled
    } else {
        SoArmState::ConnectedUncalibrated
    }
}

/// Whether an action stamped `timestamp_ns` may be applied: only while enabled, and only
/// after the last enable or applied action.
pub open spec fn action_check(m: SoArmModel, timestamp_ns: u64) -> Result<(), SoArmError> {
    if m.state != SoArmState::Enabled {
        Err(invalid_state("apply action", m.state))
    } else {
        match m.last_action_ns {
            Some(previous) => if timestamp_ns <= previous {
                Err(SoArmError::InvalidTimestamp { timestamp_ns })
            } else {
                Ok(())
            },
            None => Ok(()),
        }
    }
}

/// The first joint whose commanded tick falls outside one turn, if any.
pub open spec fn first_out_of_range(cal: Seq<JointCalibration>, offsets: Seq<i32>) -> Option<int> {
    if exists|i: int|
        0 <= i < 6 && !(0 <= #[trigger] commanded_tick(cal[i], offsets[i]) < SO_ARM_TICKS_PER_TURN) {
        Some(
            choose|i: int|
                0 <= i < 6 && !(0 <= #[trigger] commanded_tick(cal[i], offsets[i])
                    < SO_ARM_TICKS_PER_TURN) && forall|j: int|
                    0 <= j < i ==> 0 <= #[trigger] commanded_tick(cal[j], offsets[j])
                        < SO_ARM_TICKS_PER_TURN,
        )
    } else {
        None
    }
}

/// The commanded ticks of all six joints.
pub open spec fn commanded_ticks(cal: Seq<JointCalibration>, offsets: Seq<i32>) -> Seq<u16> {
    Seq::new(6, |i: int| commanded_tick(cal[i], offsets[i]) as u16)
}

/// The adapter transition: the new condition and the action to ask for.
pub open spec fn so_step(m: SoArmModel, cal: Seq<JointCalibration>, event: SoArmEvent) -> (
    SoArmModel,
    SoArmPlan,
) {
    let idle = SoArmModel { pending: SoArmPending::Idle, ..m };
    match event {
        SoArmEvent::Begin(SoArmOperation::Connect) => if m.state != SoArmState::Disconnected {
            (idle, SoArmPlan::FinishedErr(invalid_state("connect", m.state)))
        } else {
            (SoArmModel { pending: SoArmPending::Connecting, ..m }, SoArmPlan::SetTorque(false))
        },
        SoArmEvent::Begin(SoArmOperation::Enable { timestamp_ns }) => if m.state
            != SoArmState::ConnectedDisabled {
            (idle, SoArmPlan::FinishedErr(invalid_state("enable", m.state)))
        } else if timestamp_ns == 0 {
            (idle, SoArmPlan::FinishedErr(SoArmError::InvalidTimestamp { timestamp_ns }))
        } else {
            (
                SoArmModel {
                    pending: SoArmPending::Reading { index: 0, enable_at: Some(timestamp_ns) },
                    ..m
                },
                SoArmPlan::ReadJoint(0),
            )
        },
        SoArmEvent::Begin(SoArmOperation::Observe) => if m.state == SoArmState::Disconnected {
            (idle, SoArmPlan::FinishedErr(invalid_state("observe", m.state)))
        } else {
            (
                SoArmModel { pending: SoArmPending::Reading { index: 0, enable_at: None }, ..m },
                SoArmPlan::ReadJoint(0),
            )
        },
        SoArmEvent::Begin(SoArmOperation::ApplyAction { timestamp_ns, offsets }) => match action_check(
            m,
            timestamp_ns,
        ) {
            Err(e) => (idle, SoArmPlan::FinishedErr(e)),
            Ok(()) => match first_out_of_range(cal, offsets@) {
                Some(i) => (
                    idle,
                    SoArmPlan::FinishedErr(SoArmError::CalibrationRange { joint: joint_name(i) }),
                ),
                None => (
                    SoArmModel { pending: SoArmPending::WritingGoal { timestamp_ns }, ..m },
                    SoArmPlan::WriteGoal(commanded_ticks(cal, offsets@)),
                ),
            },
        },
        SoArmEvent::Begin(SoArmOperation::SafeStop) => if m.state == SoArmState::Disconnected {
            (idle, SoArmPlan::FinishedDone)
        } else {
            (
                SoArmModel { pending: SoArmPending::Stopping { disconnect: false }, ..m },
                SoArmPlan::SetTorque(false),
            )
        },
        SoArmEvent::Begin(SoArmOperation::Disconnect) => if m.state == SoArmState::Disconnected {
            (idle, SoArmPlan::FinishedDone)
        } else {
            (
                SoArmModel { pending: SoArmPending::Stopping { disconnect: true }, ..m },
                SoArmPlan::SetTorque(false),
            )
        },
        SoArmEvent::BusDone(Err(e)) => if m.pending is Idle {
            (idle, SoArmPlan::FinishedErr(so_mismatch()))
        } else {
            (idle, SoArmPlan::FinishedErr(SoArmError::Feetech(Box::new(e))))
        },
        SoArmEvent::BusDone(Ok(reply)) => match m.pending {
            SoArmPending::Idle => (idle, SoArmPlan::FinishedErr(so_mismatch())),
            SoArmPending::Connecting => (
                SoArmModel { state: SoArmState::ConnectedUncalibrated, ..idle },
                SoArmPlan::FinishedDone,
            ),
            SoArmPending::Reading { index, enable_at } => match reply {
                BusReply::Ticks(v) => {
                    let ticks = m.ticks.update(index as int, v);
                    if index + 1 < 6 {
                        (
                            SoArmModel {
                                pending: SoArmPending::Reading {
                                    index: (index + 1) as usize,
                                    enable_at,
                                },
                                ticks,
                                ..m
                            },
                            SoArmPlan::ReadJoint(index + 1),
                        )
                    } else {
                        match enable_at {
                            None => (SoArmModel { ticks, ..idle }, SoArmPlan::FinishedPose(ticks)),
                            Some(t) => (
                                SoArmModel {
                                    pending: SoArmPending::EnablingTorque { timestamp_ns: t },
                                    ticks,
                                    ..m
                                },
                                SoArmPlan::SetTorque(true),
                            ),
                        }
                    }
                },
                BusReply::Unit => (idle, SoArmPlan::FinishedErr(so_mismatch())),
            },
            SoArmPending::EnablingTorque { timestamp_ns } => (
                SoArmModel {
                    state: SoArmState::Enabled,
                    last_action_ns: Some(timestamp_ns),
                    ..idle
                },
                SoArmPlan::FinishedPose(m.ticks),
            ),
            SoArmPending::WritingGoal { timestamp_ns } => (
                SoArmModel { last_action_ns: Some(timestamp_ns), ..idle },
                SoArmPlan::FinishedDone,
            ),
            SoArmPending::Stopping { disconnect } => (
                SoArmModel {
                    state: if disconnect {
                        SoArmState::Disconnected
                    } else {
                        so_stopped_state(m.calibrated)
                    },
                    last_action_ns: None,
                    ..idle
                },
                SoArmPlan::FinishedDone,
            ),
        },
    }
}

/// The calibrated states need an accepted calibration; an enabled arm always has the
/// timestamp rate limiting starts from; and each kind of pending work belongs to the state
/// it was started from.
pub open spec fn so_consistent(m: SoArmModel) -> bool {
    &&& m.state == SoArmState::Enabled ==> m.calibrated && m.last_action_ns is Some
    &&& m.state == SoArmState::ConnectedDisabled ==> m.calibrated
    &&& m.pending is Connecting ==> m.state == SoArmState::Disconnected
    &&& (m.pending matches SoArmPending::Reading { enable_at: Some(_), .. }) ==> m.state
        == SoArmState::ConnectedDisabled
    &&& m.pending is EnablingTorque ==> m.state == SoArmState::ConnectedDisabled
    &&& m.pending is WritingGoal ==> m.state == SoArmState::Enabled
    &&& m.ticks.len() == 6
    &&& (m.pending matches SoArmPending::Reading { index, .. } ==> index < 6)
}

/// Every step keeps the adapter consistent.
pub proof fn lemma_so_step_keeps_consistent(
    m: SoArmModel,
    cal: Seq<JointCalibration>,
    event: SoArmEvent,
)
    requires
        so_consistent(m),
    ensures
        so_consistent(so_step(m, cal, event).0),
        so_step(m, cal, event).0.calibrated == m.calibrated,
{
}

/// Torque is enabled only for a calibrated, connected-disabled arm, and only right after
/// its whole pose (the last joint, the gripper) was read.
pub proof fn lemma_so_torque_enabled_only_after_pose(
    m: SoArmModel,
    cal: Seq<JointCalibration>,
    event: SoArmEvent,
)
    requires
        so_consistent(m),
    ensures
        so_step(m, cal, event).1 == SoArmPlan::SetTorque(true) ==> {
            &&& m.calibrated
            &&& m.state == SoArmState::ConnectedDisabled
            &&& m.pending matches SoArmPending::Reading { index: 5, enable_at: Some(_) }
            &&& event matches SoArmEvent::BusDone(Ok(BusReply::Ticks(_)))
        },
        so_step(m, cal, event).0.state == SoArmState::Enabled && m.state != SoArmState::Enabled
            ==> m.pending is EnablingTorque && event matches SoArmEvent::BusDone(Ok(_)),
{
}

/// Goals are written only while enabled and only for an action stamped later than the last
/// enable or applied action; the rate-limiting timestamp only grows, except that a stop
/// clears it.
pub proof fn lemma_so_actions_gated(m: SoArmModel, cal: Seq<JointCalibration>, event: SoArmEvent)
    requires
        so_consistent(m),
    ensures
        so_step(m, cal, event).1 is WriteGoal ==> m.state == SoArmState::Enabled && (
        event matches SoArmEvent::Begin(SoArmOperation::ApplyAction { timestamp_ns, .. })
            && m.last_action_ns matches Some(last) && timestamp_ns > last),
        ({
            let next = so_step(m, cal, event).0;
            ||| next.last_action_ns == m.last_action_ns
            ||| next.last_action_ns is None && m.pending is Stopping
            ||| next.last_action_ns matches Some(t) && m.pending is EnablingTorque
            ||| next.last_action_ns matches Some(t) && m.pending matches SoArmPending::WritingGoal {
                timestamp_ns,
            } && t == timestamp_ns
        }),
{
}

/// A stale action (stamped no later than the last enable or applied action) is rejected
/// with `InvalidTimestamp`, and nothing but the pending work changes.
pub proof fn lemma_so_stale_action_rejected(
    m: SoArmModel,
    cal: Seq<JointCalibration>,
    timestamp_ns: u64,
    offsets: [i32; 6],
    previous: u64,
)
    requires
        m.state == SoArmState::Enabled,
        m.last_action_ns == Some(previous),
        timestamp_ns <= previous,
    ensures
        so_step(m, cal, SoArmEvent::Begin(SoArmOperation::ApplyAction { timestamp_ns, offsets }))
            == (
            SoArmModel { pending: SoArmPending::Idle, ..m },
            SoArmPlan::FinishedErr(SoArmError::InvalidTimestamp { timestamp_ns }),
        ),
{
}

/// Connecting and stopping disable torque first: a connect from the disconnected state and a
/// stop or disconnect of a connected arm ask for torque off, and a stop that completes leaves
/// the arm not enabled and without a rate-limiting timestamp.
pub proof fn lemma_so_connect_and_stop_disable_torque(
    m: SoArmModel,
    cal: Seq<JointCalibration>,
    event: SoArmEvent,
)
    requires
        so_consistent(m),
    ensures
        m.state == SoArmState::Disconnected && event == SoArmEvent::Begin(SoArmOperation::Connect)
            ==> so_step(m, cal, event).1 == SoArmPlan::SetTorque(false),
        m.state != SoArmState::Disconnected && (event == SoArmEvent::Begin(SoArmOperation::SafeStop)
            || event == SoArmEvent::Begin(SoArmOperation::Disconnect)) ==> so_step(m, cal, event).1
            == SoArmPlan::SetTorque(false),
        (m.pending is Stopping && event matches SoArmEvent::BusDone(Ok(_))) ==> {
            let next = so_step(m, cal, event).0;
            &&& next.state != SoArmState::Enabled
            &&& next.last_action_ns is None
        },
{
}

/// An accepted action writes, for every joint, the goal tick that joint's own calibration
/// gives for that joint's own offset (zero plus direction times offset); if some joint's tick
/// falls outside one turn, the error names the first such joint and nothing is written.
pub proof fn lemma_so_action_goal_per_joint(
    m: SoArmModel,
    cal: Seq<JointCalibration>,
    timestamp_ns: u64,
    offsets: [i32; 6],
)
    requires
        m.state == SoArmState::Enabled,
        m.last_action_ns matches Some(last) && timestamp_ns > last,
        cal.len() == 6,
    ensures
        (forall|i: int|
            0 <= i < 6 ==> 0 <= cal[i].zero_tick + cal[i].direction * #[trigger] offsets@[i] < 4096)
            ==> (so_step(
            m,
            cal,
            SoArmEvent::Begin(SoArmOperation::ApplyAction { timestamp_ns, offsets }),
        ).1 matches SoArmPlan::WriteGoal(goal) && goal.len() == 6 && forall|i: int|
            0 <= i < 6 ==> #[trigger] goal[i] == (cal[i].zero_tick + cal[i].direction * offsets@[i])
                as u16),
        forall|k: int|
            0 <= k < 6 && !(0 <= cal[k].zero_tick + cal[k].direction * #[trigger] offsets@[k] < 4096)
                && (forall|j: int|
                0 <= j < k ==> 0 <= cal[j].zero_tick + cal[j].direction * #[trigger] offsets@[j] < 4096)
                ==> so_step(
                m,
                cal,
                SoArmEvent::Begin(SoArmOperation::ApplyAction { timestamp_ns, offsets }),
            ).1 == SoArmPlan::FinishedErr(SoArmError::CalibrationRange { joint: joint_name(k) }),
{
    let o = offsets@;
    assert forall|k: int|
        0 <= k < 6 && !(0 <= cal[k].zero_tick + cal[k].direction * #[trigger] offsets@[k] < 4096)
            && (forall|j: int|
            0 <= j < k ==> 0 <= cal[j].zero_tick + cal[j].direction * #[trigger] offsets@[j] < 4096)
            implies so_step(
            m,
            cal,
            SoArmEvent::Begin(SoArmOperation::ApplyAction { timestamp_ns, offsets }),
        ).1 == SoArmPlan::FinishedErr(SoArmError::CalibrationRange { joint: joint_name(k) }) by {
        assert(!(0 <= commanded_tick(cal[k], o[k]) < SO_ARM_TICKS_PER_TURN));
        let c = first_out_of_range(cal, o).unwrap();
        assert(c == k) by {
            if c < k {
                assert(0 <= cal[c].zero_tick + cal[c].direction * o[c] < 4096);
            } else if c > k {
                assert(0 <= commanded_tick(cal[k], o[k]) < SO_ARM_TICKS_PER_TURN);
            }
        }
    }
    if forall|i: int| 0 <= i < 6 ==> 0 <= cal[i].zero_tick + cal[i].direction * #[trigger] o[i] < 4096 {
        assert(forall|i: int|
            0 <= i < 6 ==> 0 <= #[trigger] commanded_tick(cal[i], o[i]) < SO_ARM_TICKS_PER_TURN);
        assert(first_out_of_range(cal, o) is None);
    }
}

/// The adapter's condition after `events`, and the actions it asked for along the way.
pub open spec fn so_run(m: SoArmModel, cal: Seq<JointCalibration>, events: Seq<SoArmEvent>) -> (
    SoArmModel,
    Seq<SoArmPlan>,
)
    decreases events.len(),
{
    if events.len() == 0 {
        (m, Seq::empty())
    } else {
        let (next, plan) = so_step(m, cal, events[0]);
        let (last, plans) = so_run(next, cal, events.drop_first());
        (last, seq![plan] + plans)
    }
}

/// The bus replies of six position reads that return `ticks`, in order.
pub open spec fn position_replies(ticks: Seq<u16>) -> Seq<SoArmEvent> {
    Seq::new(ticks.len(), |i: int| SoArmEvent::BusDone(Ok(BusReply::Ticks(ticks[i]))))
}

proof fn lemma_so_run_append(
    m: SoArmModel,
    cal: Seq<JointCalibration>,
    a: Seq<SoArmEvent>,
    b: Seq<SoArmEvent>,
)
    ensures
        so_run(m, cal, a + b) == ({
            let (mid, first) = so_run(m, cal, a);
            let (last, second) = so_run(mid, cal, b);
            (last, first + second)
        }),
    decreases a.len(),
{
    if a.len() == 0 {
        assert(a + b =~= b);
        assert(Seq::<SoArmPlan>::empty() + so_run(m, cal, b).1 =~= so_run(m, cal, b).1);
    } else {
        let next = so_step(m, cal, a[0]).0;
        assert((a + b).drop_first() =~= a.drop_first() + b);
        assert((a + b)[0] == a[0]);
        lemma_so_run_append(next, cal, a.drop_first(), b);
        let (mid, first) = so_run(next, cal, a.drop_first());
        let (last, second) = so_run(mid, cal, b);
        assert(seq![so_step(m, cal, a[0]).1] + (first + second) =~= (seq![so_step(m, cal, a[0]).1]
            + first) + second);
    }
}

proof fn lemma_so_reads_from(
    m: SoArmModel,
    cal: Seq<JointCalibration>,
    i: int,
    enable_at: Option<u64>,
    v: Seq<u16>,
)
    requires
        0 <= i < 6,
        v.len() == 6,
        m.ticks.len() == 6,
        m.pending == (SoArmPending::Reading { index: i as usize, enable_at }),
        forall|j: int| 0 <= j < i ==> m.ticks[j] == v[j],
    ensures
        ({
            let (last, plans) = so_run(m, cal, position_replies(v).skip(i));
            &&& last.ticks == v
            &&& last.state == m.state
            &&& last.calibrated == m.calibrated
            &&& last.last_action_ns == m.last_action_ns
            &&& last.pending == match enable_at {
                None => SoArmPending::Idle,
                Some(t) => SoArmPending::EnablingTorque { timestamp_ns: t },
            }
            &&& plans == Seq::new((5 - i) as nat, |k: int| SoArmPlan::ReadJoint(i + 1 + k)) + seq![
                match enable_at {
                    None => SoArmPlan::FinishedPose(v),
                    Some(_) => SoArmPlan::SetTorque(true),
                },
            ]
        }),
    decreases 6 - i,
{
    let events = position_replies(v).skip(i);
    assert(events[0] == SoArmEvent::BusDone(Ok(BusReply::Ticks(v[i]))));
    let ticks = m.ticks.update(i, v[i]);
    let end = match enable_at {
        None => SoArmPlan::FinishedPose(v),
        Some(_) => SoArmPlan::SetTorque(true),
    };
    if i + 1 < 6 {
        let next = SoArmModel {
            pending: SoArmPending::Reading { index: (i + 1) as usize, enable_at },
            ticks,
            ..m
        };
        assert(so_step(m, cal, events[0]) == (next, SoArmPlan::ReadJoint(i + 1)));
        assert(events.drop_first() =~= position_replies(v).skip(i + 1));
        lemma_so_reads_from(next, cal, i + 1, enable_at, v);
        assert(seq![SoArmPlan::ReadJoint(i + 1)] + (Seq::new(
            (5 - (i + 1)) as nat,
            |k: int| SoArmPlan::ReadJoint(i + 2 + k),
        ) + seq![end]) =~= Seq::new((5 - i) as nat, |k: int| SoArmPlan::ReadJoint(i + 1 + k))
            + seq![end]);
    } else {
        assert(ticks =~= v);
        assert(events.drop_first() =~= Seq::<SoArmEvent>::empty());
        let next = so_step(m, cal, events[0]).0;
        assert(so_run(next, cal, Seq::<SoArmEvent>::empty()) == (next, Seq::<SoArmPlan>::empty()));
        assert(seq![end] + Seq::<SoArmPlan>::empty() =~= Seq::new(
            (5 - i) as nat,
            |k: int| SoArmPlan::ReadJoint(i + 1 + k),
        ) + seq![end]);
    }
}

/// Enabling a calibrated, disabled arm reads the present position of every joint, in joint
/// order, then enables torque, and reports the pose it read: position `i` of the pose is the
/// tick returned by the read of joint `i`. Rate limiting then starts from the enable
/// timestamp.
pub proof fn lemma_so_enable_reads_pose(
    m: SoArmModel,
    cal: Seq<JointCalibration>,
    timestamp_ns: u64,
    v: Seq<u16>,
)
    requires
        so_consistent(m),
        m.state == SoArmState::ConnectedDisabled,
        timestamp_ns != 0,
        v.len() == 6,
    ensures
        ({
            let (last, plans) = so_run(
                m,
                cal,
                seq![SoArmEvent::Begin(SoArmOperation::Enable { timestamp_ns })] + position_replies(
                    v,
                ) + seq![SoArmEvent::BusDone(Ok(BusReply::Unit))],
            );
            &&& last.state == SoArmState::Enabled
            &&& last.last_action_ns == Some(timestamp_ns)
            &&& plans == Seq::new(6, |i: int| SoArmPlan::ReadJoint(i)) + seq![
                SoArmPlan::SetTorque(true),
                SoArmPlan::FinishedPose(v),
            ]
        }),
{
    let begin = seq![SoArmEvent::Begin(SoArmOperation::Enable { timestamp_ns })];
    let reads = position_replies(v);
    let done = seq![SoArmEvent::BusDone(Ok(BusReply::Unit))];
    let reading = so_step(m, cal, begin[0]).0;
    assert(reads.skip(0) =~= reads);
    lemma_so_reads_from(reading, cal, 0, Some(timestamp_ns), v);
    lemma_so_run_append(m, cal, begin, reads);
    assert(begin.drop_first() =~= Seq::<SoArmEvent>::empty());
    assert(so_run(reading, cal, Seq::<SoArmEvent>::empty()) == (reading, Seq::<SoArmPlan>::empty()));
    let mid = so_run(m, cal, begin + reads).0;
    lemma_so_run_append(m, cal, begin + reads, done);
    assert(done.drop_first() =~= Seq::<SoArmEvent>::empty());
    let fin = so_step(mid, cal, done[0]).0;
    assert(so_run(fin, cal, Seq::<SoArmEvent>::empty()) == (fin, Seq::<SoArmPlan>::empty()));
    assert(seq![SoArmPlan::ReadJoint(0)] + Seq::<SoArmPlan>::empty() + (Seq::new(
        5,
        |k: int| SoArmPlan::ReadJoint(1 + k),
    ) + seq![SoArmPlan::SetTorque(true)]) + (seq![SoArmPlan::FinishedPose(v)]
        + Seq::<SoArmPlan>::empty()) =~= Seq::new(6, |i: int| SoArmPlan::ReadJoint(i)) + seq![
        SoArmPlan::SetTorque(true),
        SoArmPlan::FinishedPose(v),
    ]);
}

/// Observing a connected arm reads the present position of every joint, in joint order, and
/// reports them: position `i` of the pose is the tick returned by the read of joint `i`;
/// the state does not change.
pub proof fn lemma_so_observe_reads_pose(m: SoArmModel, cal: Seq<JointCalibration>, v: Seq<u16>)
    requires
        so_consistent(m),
        m.state != SoArmState::Disconnected,
        v.len() == 6,
    ensures
        ({
            let (last, plans) = so_run(
                m,
                cal,
                seq![SoArmEvent::Begin(SoArmOperation::Observe)] + position_replies(v),
            );
            &&& last.state == m.state
            &&& plans == Seq::new(6, |i: int| SoArmPlan::ReadJoint(i)) + seq![
                SoArmPlan::FinishedPose(v),
            ]
        }),
{
    let begin = seq![SoArmEvent::Begin(SoArmOperation::Observe)];
    let reads = position_replies(v);
    let reading = so_step(m, cal, begin[0]).0;
    assert(reads.skip(0) =~= reads);
    lemma_so_reads_from(reading, cal, 0, None, v);
    lemma_so_run_append(m, cal, begin, reads);
    assert(begin.drop_first() =~= Seq::<SoArmEvent>::empty());
    assert(so_run(reading, cal, Seq::<SoArmEvent>::empty()) == (reading, Seq::<SoArmPlan>::empty()));
    assert(seq![SoArmPlan::ReadJoint(0)] + Seq::<SoArmPlan>::empty() + (Seq::new(
        5,
        |k: int| SoArmPlan::ReadJoint(1 + k),
    ) + seq![SoArmPlan::FinishedPose(v)]) =~= Seq::new(6, |i: int| SoArmPlan::ReadJoint(i))
        + seq![SoArmPlan::FinishedPose(v)]);
}

/// A safe stop of a connected arm, once torque is off, leaves the arm connected: disabled
/// with its calibration if one was accepted, uncalibrated otherwise. Only a disconnect
/// leaves it disconnected.
pub proof fn lemma_so_stop_keeps_connection(m: SoArmModel, cal: Seq<JointCalibration>)
    requires
        so_consistent(m),
        m.state != SoArmState::Disconnected,
    ensures
        ({
            let stopping = so_step(m, cal, SoArmEvent::Begin(SoArmOperation::SafeStop));
            let stopped = so_step(stopping.0, cal, SoArmEvent::BusDone(Ok(BusReply::Unit)));
            &&& stopping.1 == SoArmPlan::SetTorque(false)
            &&& stopped.1 == SoArmPlan::FinishedDone
            &&& stopped.0.state == if m.calibrated {
                SoArmState::ConnectedDisabled
            } else {
                SoArmState::ConnectedUncalibrated
            }
        }),
        ({
            let leaving = so_step(m, cal, SoArmEvent::Begin(SoArmOperation::Disconnect));
            let left = so_step(leaving.0, cal, SoArmEvent::BusDone(Ok(BusReply::Unit)));
            &&& leaving.1 == SoArmPlan::SetTorque(false)
            &&& left.1 == SoArmPlan::FinishedDone
            &&& left.0.state == SoArmState::Disconnected
        }),
{
}

/// Connecting a disconnected arm first turns torque off; once every servo acknowledged,
/// the arm is connected and uncalibrated, with no pose to rate-limit from.
pub proof fn lemma_so_connect_leaves_uncalibrated(m: SoArmModel, cal: Seq<JointCalibration>)
    requires
        so_consistent(m),
        m.state == SoArmState::Disconnected,
    ensures
        ({
            let connecting = so_step(m, cal, SoArmEvent::Begin(SoArmOperation::Connect));
            let connected = so_step(connecting.0, cal, SoArmEvent::BusDone(Ok(BusReply::Unit)));
            &&& connecting.1 == SoArmPlan::SetTorque(false)
            &&& connected.1 == SoArmPlan::FinishedDone
            &&& connected.0.state == SoArmState::ConnectedUncalibrated
            &&& connected.0.last_action_ns == m.last_action_ns
        }),
{
}

/// Reading back the tick commanded for an offset of at most half a turn gives that offset
/// again, in the joint's direction.
pub proof fn lemma_tick_offset_roundtrip(c: JointCalibration, offset: i32)
    requires
        calibration_valid(c),
        -2048 <= offset <= 2048,
        0 <= commanded_tick(c, offset) < SO_ARM_TICKS_PER_TURN,
    ensures
        tick_offset(c, commanded_tick(c, offset) as u16) * c.direction == offset,
{
    if c.direction == 1 {
        assert(commanded_tick(c, offset) == c.zero_tick + offset);
        assert(tick_offset(c, commanded_tick(c, offset) as u16) == offset);
    } else {
        assert(commanded_tick(c, offset) == c.zero_tick - offset);
        assert(tick_offset(c, commanded_tick(c, offset) as u16) == -offset);
    }
}

/// The name of joint `index` (0 to 5) in the stable SO-ARM order.
fn joint(index: usize) -> (name: &'static str)
    requires
        index < 6,
    ensures
        name == joint_name(index as int),
{
    if index == 0 {
        "shoulder_pan"
    } else if index == 1 {
        "shoulder_lift"
    } else if index == 2 {
        "elbow_flex"
    } else if index == 3 {
        "wrist_flex"
    } else if index == 4 {
        "wrist_roll"
    } else {
        "gripper"
    }
}

/// The SO-ARM lifecycle and safety gate over a Feetech bus with serial session `T`.
///
/// It connects with torque disabled, enables torque only for an arm with an accepted
/// calibration and only after reading its current pose, accepts goals only while enabled
/// and only with increasing timestamps, and stops locally.
pub struct SoArmLifecycle<T> {
    bus: FeetechBus<T>,
    calibration: [JointCalibration; 6],
    state: SoArmState,
    calibration_id: Option<String>,
    last_action_ns: Option<u64>,
    pending: SoArmPending,
    ticks: Vec<u16>,
}

impl<T> SoArmLifecycle<T> {
    pub closed spec fn model(&self) -> SoArmModel {
        SoArmModel {
            state: self.state,
            calibrated: self.calibration_id is Some,
            last_action_ns: self.last_action_ns,
            pending: self.pending,
            ticks: self.ticks@,
        }
    }

    pub closed spec fn calibrations(&self) -> Seq<JointCalibration> {
        self.calibration@
    }

    /// The accepted calibration identity, if any.
    pub closed spec fn calibration_id_spec(&self) -> Option<Seq<char>> {
        match self.calibration_id {
            Some(id) => Some(id@),
            None => None,
        }
    }

    pub closed spec fn bus_spec(&self) -> FeetechBus<T> {
        self.bus
    }

    pub open spec fn wf(&self) -> bool {
        &&& so_consistent(self.model())
        &&& self.bus_spec().wf()
        &&& self.calibrations().len() == 6
        &&& (self.model().calibrated <==> self.calibration_id_spec() is Some)
    }

    pub fn new(bus: FeetechBus<T>, calibration: [JointCalibration; 6]) -> (adapter: Self)
        requires
            bus.wf(),
        ensures
            adapter.wf(),
            adapter.bus_spec() == bus,
            adapter.calibrations() == calibration@,
            adapter.model().state == SoArmState::Disconnected,
            !adapter.model().calibrated,
            adapter.model().last_action_ns is None,
            adapter.model().pending == SoArmPending::Idle,
    {
        SoArmLifecycle {
            bus,
            calibration,
            state: SoArmState::Disconnected,
            calibration_id: None,
            last_action_ns: None,
            pending: SoArmPending::Idle,
            ticks: vec![0u16, 0, 0, 0, 0, 0],
        }
    }

    pub fn state(&self) -> (state: SoArmState)
        ensures
            state == self.model().state,
    {
        self.state
    }

    pub fn calibration_id(&self) -> (id: Option<&str>)
        requires
            self.wf(),
        ensures
            match (id, self.calibration_id_spec()) {
                (Some(a), Some(b)) => a@ == b,
                (None, None) => true,
                _ => false,
            },
    {
        match &self.calibration_id {
            Some(id) => Some(id.as_str()),
            None => None,
        }
    }

    /// The bus, for the owner to run the requested transaction.
    pub fn bus_mut(&mut self) -> (bus: &mut FeetechBus<T>)
        ensures
            *bus == old(self).bus_spec(),
            final(self).bus_spec() == *final(bus),
            final(self).model() == old(self).model(),
            final(self).calibrations() == old(self).calibrations(),
            final(self).calibration_id_spec() == old(self).calibration_id_spec(),
    {
        &mut self.bus
    }

    pub fn into_bus(self) -> (bus: FeetechBus<T>)
        ensures
            bus == self.bus_spec(),
    {
        self.bus
    }

    /// Accepts a calibration profile that was persisted by the calibration workflow.
    pub fn accept_calibration(&mut self, calibration_id: &str) -> (result: Result<(), SoArmError>)
        requires
            old(self).wf(),
        ensures
            final(self).wf(),
            final(self).bus_spec() == old(self).bus_spec(),
            final(self).calibrations() == old(self).calibrations(),
            old(self).model().state != SoArmState::ConnectedUncalibrated ==> result == Err::<
                (),
                SoArmError,
            >(invalid_state("accept calibration", old(self).model().state)),
            old(self).model().state == SoArmState::ConnectedUncalibrated && is_blank(
                calibration_id@,
            ) ==> result == Err::<(), SoArmError>(
                SoArmError::InvalidConfiguration("calibration id is empty"),
            ),
            result is Err ==> final(self).model() == old(self).model()
                && final(self).calibration_id_spec() == old(self).calibration_id_spec(),
            result is Ok <==> old(self).model().state == SoArmState::ConnectedUncalibrated
                && !is_blank(calibration_id@),
            result is Ok ==> final(self).model() == (SoArmModel {
                state: SoArmState::ConnectedDisabled,
                calibrated: true,
                ..old(self).model()
            }) && final(self).calibration_id_spec() == Some(calibration_id@),
    {
        if self.state != SoArmState::ConnectedUncalibrated {
            return Err(SoArmError::InvalidState { operation: "accept calibration", state: self.state });
        }
        if is_blank_str(calibration_id) {
            return Err(SoArmError::InvalidConfiguration("calibration id is empty"));
        }
        self.calibration_id = Some(calibration_id.to_owned());
        self.state = SoArmState::ConnectedDisabled;
        Ok(())
    }

    /// Checks that an action stamped `timestamp_ns` may be applied and returns the
    /// timestamp rate limiting starts from.
    pub fn check_action(&self, timestamp_ns: u64) -> (result: Result<u64, SoArmError>)
        requires
            self.wf(),
        ensures
            match (result, action_check(self.model(), timestamp_ns)) {
                (Ok(previous), Ok(())) => self.model().last_action_ns == Some(previous),
                (Err(e), Err(f)) => e == f,
                _ => false,
            },
    {
        if self.state != SoArmState::Enabled {
            return Err(SoArmError::InvalidState { operation: "apply action", state: self.state });
        }
        match self.last_action_ns {
            Some(previous) => {
                if timestamp_ns <= previous {
                    return Err(SoArmError::InvalidTimestamp { timestamp_ns });
                }
                Ok(previous)
            },
            None => Err(SoArmError::InvalidState { operation: "apply action", state: self.state }),
        }
    }

    /// The commanded ticks of all joints, or the first joint that falls outside one turn.
    fn goal_ticks(&self, offsets: &[i32; 6]) -> (result: Result<Vec<(String, u16)>, SoArmError>)
        requires
            self.calibrations().len() == 6,
        ensures
            match (result, first_out_of_range(self.calibrations(), offsets@)) {
                (Err(e), Some(i)) => e == SoArmError::CalibrationRange { joint: joint_name(i) },
                (Ok(goals), None) => {
                    &&& goals@.len() == 6
                    &&& forall|i: int|
                        0 <= i < 6 ==> (#[trigger] goals@[i]).0@ == joint_name(i)@ && goals@[i].1
                            == commanded_ticks(self.calibrations(), offsets@)[i]
                },
                _ => false,
            },
    {
        let ghost cal = self.calibrations();
        let mut goals: Vec<(String, u16)> = Vec::with_capacity(6);
        let mut i: usize = 0;
        while i < 6
            invariant
                i <= 6,
                cal == self.calibrations(),
                cal.len() == 6,
                goals@.len() == i,
                forall|j: int|
                    0 <= j < i ==> 0 <= #[trigger] commanded_tick(cal[j], offsets@[j])
                        < SO_ARM_TICKS_PER_TURN,
                forall|j: int|
                    0 <= j < i ==> (#[trigger] goals@[j]).0@ == joint_name(j)@ && goals@[j].1
                        == commanded_tick(cal[j], offsets@[j]),
            decreases 6 - i,
        {
            match self.calibration[i].tick_for_offset(offsets[i]) {
                None => {
                    proof {
                        assert(!(0 <= commanded_tick(cal[i as int], offsets@[i as int])
                            < SO_ARM_TICKS_PER_TURN));
                        let c = first_out_of_range(cal, offsets@).unwrap();
                        let k = choose|k: int|
                            0 <= k < 6 && !(0 <= #[trigger] commanded_tick(cal[k], offsets@[k])
                                < SO_ARM_TICKS_PER_TURN) && forall|j: int|
                                0 <= j < k ==> 0 <= #[trigger] commanded_tick(cal[j], offsets@[j])
                                    < SO_ARM_TICKS_PER_TURN;
                        assert(k == i as int) by {
                            if k < i {
                            } else if k > i {
                                assert(0 <= commanded_tick(cal[i as int], offsets@[i as int])
                                    < SO_ARM_TICKS_PER_TURN);
                            }
                        }
                    }
                    return Err(SoArmError::CalibrationRange { joint: joint(i) });
                },
                Some(tick) => {
                    goals.push((joint(i).to_owned(), tick));
                },
            }
            i = i + 1;
        }
        Ok(goals)
    }

    /// Takes the owner's report and says what to do next, following `so_step`.
    pub fn step(&mut self, event: SoArmEvent) -> (action: SoArmAction)
        requires
            old(self).wf(),
        ensures
            final(self).wf(),
            final(self).bus_spec() == old(self).bus_spec(),
            final(self).calibrations() == old(self).calibrations(),
            final(self).calibration_id_spec() == old(self).calibration_id_spec(),
            ({
                let (model, plan) = so_step(old(self).model(), old(self).calibrations(), event);
                &&& final(self).model() == model
                &&& so_action_is(action, plan)
            }),
    {
        proof {
            lemma_so_step_keeps_consistent(self.model(), self.calibrations(), event);
        }
        let pending = self.pending;
        self.pending = SoArmPending::Idle;
        match event {
            SoArmEvent::Begin(SoArmOperation::Connect) => {
                if self.state != SoArmState::Disconnected {
                    return SoArmAction::Finished(
                        Err(SoArmError::InvalidState { operation: "connect", state: self.state }),
                    );
                }
                self.pending = SoArmPending::Connecting;
                SoArmAction::Bus(BusRequest::SetTorque(false))
            },
            SoArmEvent::Begin(SoArmOperation::Enable { timestamp_ns }) => {
                if self.state != SoArmState::ConnectedDisabled {
                    return SoArmAction::Finished(
                        Err(SoArmError::InvalidState { operation: "enable", state: self.state }),
                    );
                }
                if timestamp_ns == 0 {
                    return SoArmAction::Finished(Err(SoArmError::InvalidTimestamp { timestamp_ns }));
                }
                self.pending = SoArmPending::Reading { index: 0, enable_at: Some(timestamp_ns) };
                SoArmAction::Bus(BusRequest::ReadPosition(joint(0).to_owned()))
            },
            SoArmEvent::Begin(SoArmOperation::Observe) => {
                if self.state == SoArmState::Disconnected {
                    return SoArmAction::Finished(
                        Err(SoArmError::InvalidState { operation: "observe", state: self.state }),
                    );
                }
                self.pending = SoArmPending::Reading { index: 0, enable_at: None };
                SoArmAction::Bus(BusRequest::ReadPosition(joint(0).to_owned()))
            },
            SoArmEvent::Begin(SoArmOperation::ApplyAction { timestamp_ns, offsets }) => {
                if let Err(e) = self.check_action(timestamp_ns) {
                    return SoArmAction::Finished(Err(e));
                }
                match self.goal_ticks(&offsets) {
                    Err(e) => SoArmAction::Finished(Err(e)),
                    Ok(goals) => {
                        self.pending = SoArmPending::WritingGoal { timestamp_ns };
                        SoArmAction::Bus(BusRequest::WriteGoal(goals))
                    },
                }
            },
            SoArmEvent::Begin(SoArmOperation::SafeStop) => {
                if self.state == SoArmState::Disconnected {
                    return SoArmAction::Finished(Ok(SoArmReply::Done));
                }
                self.pending = SoArmPending::Stopping { disconnect: false };
                SoArmAction::Bus(BusRequest::SetTorque(false))
            },
            SoArmEvent::Begin(SoArmOperation::Disconnect) => {
                if self.state == SoArmState::Disconnected {
                    return SoArmAction::Finished(Ok(SoArmReply::Done));
                }
                self.pending = SoArmPending::Stopping { disconnect: true };
                SoArmAction::Bus(BusRequest::SetTorque(false))
            },
            SoArmEvent::BusDone(Err(e)) => {
                if pending == SoArmPending::Idle {
                    return SoArmAction::Finished(
                        Err(SoArmError::Feetech(
                            Box::new(FeetechError::Packet("transport event does not answer the pending request")),
                        )),
                    );
                }
                SoArmAction::Finished(Err(SoArmError::Feetech(Box::new(e))))
            },
            SoArmEvent::BusDone(Ok(reply)) => match pending {
                SoArmPending::Idle => SoArmAction::Finished(
                    Err(SoArmError::Feetech(
                        Box::new(FeetechError::Packet("transport event does not answer the pending request")),
                    )),
                ),
                SoArmPending::Connecting => {
                    self.state = SoArmState::ConnectedUncalibrated;
                    SoArmAction::Finished(Ok(SoArmReply::Done))
                },
                SoArmPending::Reading { index, enable_at } => match reply {
                    BusReply::Ticks(v) => {
                        self.ticks.set(index, v);
                        if index + 1 < 6 {
                            self.pending = SoArmPending::Reading { index: index + 1, enable_at };
                            return SoArmAction::Bus(
                                BusRequest::ReadPosition(joint(index + 1).to_owned()),
                            );
                        }
                        match enable_at {
                            None => SoArmAction::Finished(Ok(SoArmReply::Pose(self.pose()))),
                            Some(t) => {
                                self.pending = SoArmPending::EnablingTorque { timestamp_ns: t };
                                SoArmAction::Bus(BusRequest::SetTorque(true))
                            },
                        }
                    },
                    BusReply::Unit => SoArmAction::Finished(
                        Err(SoArmError::Feetech(
                            Box::new(FeetechError::Packet("transport event does not answer the pending request")),
                        )),
                    ),
                },
                SoArmPending::EnablingTorque { timestamp_ns } => {
                    self.state = SoArmState::Enabled;
                    self.last_action_ns = Some(timestamp_ns);
                    SoArmAction::Finished(Ok(SoArmReply::Pose(self.pose())))
                },
                SoArmPending::WritingGoal { timestamp_ns } => {
                    self.last_action_ns = Some(timestamp_ns);
                    SoArmAction::Finished(Ok(SoArmReply::Done))
                },
                SoArmPending::Stopping { disconnect } => {
                    self.last_action_ns = None;
                    self.state = if disconnect {
                        SoArmState::Disconnected
                    } else if self.calibration_id.is_some() {
                        SoArmState::ConnectedDisabled
                    } else {
                        SoArmState::ConnectedUncalibrated
                    };
                    SoArmAction::Finished(Ok(SoArmReply::Done))
                },
            },
        }
    }

    /// The positions read, as an array in joint order.
    fn pose(&self) -> (pose: [u16; 6])
        requires
            self.ticks@.len() == 6,
        ensures
            pose@ == self.ticks@,
    {
        let pose = [
            self.ticks[0],
            self.ticks[1],
            self.ticks[2],
            self.ticks[3],
            self.ticks[4],
            self.ticks[5],
        ];
        assert(pose@ =~= self.ticks@);
        pose
    }
}

} // verus!
