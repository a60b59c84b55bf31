//! The B601-DM robot adapter: lifecycle and safety decisions above the Damiao protocol.
//!
//! The adapter is a state machine. Its owner performs the transport work it asks for
//! (send a frame, receive a frame) and answers with what happened; the adapter decides
//! what comes next. Joints 1 to 6 use position/velocity mode; the gripper (7) uses
//! force/position mode.

use vstd::prelude::*;

use crate::damiao::{
    is_damiao_mode_ack, lifecycle_frame, lifecycle_payload, mode_frame, mode_payload, reply_id,
    DamiaoCanFrame, DamiaoControlMode, DamiaoError, DamiaoStatus,
};
use crate::text::{is_blank, is_blank_str};

verus! {

/// The seven B601-DM actuators, in command order.
pub const B601_DM_MOTOR_IDS: [u16; 7] = [1, 2, 3, 4, 5, 6, 7];

/// The identifier of the B601-DM motor at `index` (0 to 6).
pub open spec fn dm_motor_id(index: int) -> u16 {
    (index + 1) as u16
}

/// The control mode of a B601-DM motor: force/position for the gripper, position/velocity
/// for the arm joints.
pub open spec fn dm_motor_mode(motor_id: u16) -> DamiaoControlMode {
    if motor_id == 7 {
        DamiaoControlMode::ForcePosition
    } else {
        DamiaoControlMode::PositionVelocity
    }
}

#[derive(Clone, Copy, Debug, PartialEq, Eq, Structural)]
pub enum DmState {
    Disconnected,
    ConnectedUncalibrated,
    ConnectedDisabled,
    Enabled,
}

/// An adapter operation that needs transport work.
#[derive(Clone, Copy, Debug, PartialEq, Eq, Structural)]
pub enum DmOperation {
    Connect,
    Enable,
    SafeStop,
}

/// What the owner reports to the adapter.
pub enum DmEvent {
    /// Start an operation (abandoning any unfinished one).
    Begin(DmOperation),
    /// The requested frame was sent.
    Sent,
    /// The requested receive completed; `None` when no frame arrived.
    Received(Option<DamiaoCanFrame>),
    /// The requested transport work failed.
    Failed(DamiaoError),
}

/// What the adapter asks of its owner next.
pub enum DmRequest {
    Send(DamiaoCanFrame),
    Receive,
    /// The operation is over, with its outcome.
    Finished(Result<(), DamiaoError>),
}

/// Why the adapter is disabling every motor.
#[derive(Clone, Copy, Debug, PartialEq, Eq, Structural)]
pub enum DisableGoal {
    /// Connecting: the adapter becomes connected and uncalibrated.
    Connect,
    /// A safe stop: the adapter becomes connected and disabled.
    Stop,
    /// A control-mode acknowledgement was missing or wrong during enable.
    ModeFault,
}

/// The transport work the adapter is waiting for.
#[derive(Clone, Copy, Debug, PartialEq, Eq, Structural)]
pub enum DmPending {
    Idle,
    /// Waiting for the Disable frame of motor `index` to be sent.
    Disabling { index: usize, goal: DisableGoal },
    /// Waiting for the control-mode frame of motor `index` to be sent, or for its
    /// acknowledgement to be received.
    SettingMode { index: usize, awaiting_ack: bool },
    /// Waiting for the Enable frame of motor `index` to be sent.
    Enabling { index: usize },
}

/// The spec-level description of a request.
pub enum DmPlan {
    SendLifecycle(u16, DamiaoStatus),
    SendMode(u16, DamiaoControlMode),
    Receive,
    Finished(Result<(), DamiaoError>),
}

/// Whether `request` is the request that `plan` describes.
pub open spec fn request_is(request: DmRequest, plan: DmPlan) -> bool {
    match (request, plan) {
        (DmRequest::Send(frame), DmPlan::SendLifecycle(id, status)) => frame@ == (
            id,
            lifecycle_payload(status),
        ),
        (DmRequest::Send(frame), DmPlan::SendMode(id, mode)) => frame@ == (
            id,
            mode_payload(id, mode),
        ),
        (DmRequest::Receive, DmPlan::Receive) => true,
        (DmRequest::Finished(r), DmPlan::Finished(p)) => r == p,
        _ => false,
    }
}

/// The adapter's observable condition: lifecycle state, whether a calibration was
/// accepted, and the pending transport work.
pub struct DmModel {
    pub state: DmState,
    pub calibrated: bool,
    pub pending: DmPending,
}

pub open spec fn mismatched_event() -> DamiaoError {
    DamiaoError::Frame("transport event does not answer the pending request")
}

pub open spec fn mode_fault() -> DamiaoError {
    DamiaoError::Frame("control mode acknowledgement missing or mismatched")
}

/// The state reached when a safe stop has disabled every motor.
pub open spec fn stopped_state(calibrated: bool) -> DmState {
    if calibrated {
        DmState::ConnectedDisabled
    } else {
        DmState::ConnectedUncalibrated
    }
}

/// The adapter's transition: from its condition and an event, the new state and pending
/// work, and the request to its owner.
pub open spec fn dm_step(m: DmModel, event: DmEvent) -> (DmState, DmPending, DmPlan) {
    match event {
        DmEvent::Begin(DmOperation::Connect) => if m.state != DmState::Disconnected {
            (
                m.state,
                DmPending::Idle,
                DmPlan::Finished(Err(DamiaoError::Frame("adapter is already connected"))),
            )
        } else {
            (
                m.state,
                DmPending::Disabling { index: 0, goal: DisableGoal::Connect },
                DmPlan::SendLifecycle(1, DamiaoStatus::Disable),
            )
        },
        DmEvent::Begin(DmOperation::SafeStop) => if m.state == DmState::Disconnected {
            (m.state, DmPending::Idle, DmPlan::Finished(Ok(())))
        } else {
            (
                m.state,
                DmPending::Disabling { index: 0, goal: DisableGoal::Stop },
                DmPlan::SendLifecycle(1, DamiaoStatus::Disable),
            )
        },
        DmEvent::Begin(DmOperation::Enable) => if m.state != DmState::ConnectedDisabled {
            (
                m.state,
                DmPending::Idle,
                DmPlan::Finished(
                    Err(DamiaoError::Frame("enable requires calibrated disabled state")),
                ),
            )
        } else {
            (
                m.state,
                DmPending::SettingMode { index: 0, awaiting_ack: false },
                DmPlan::SendMode(1, dm_motor_mode(1)),
            )
        },
        DmEvent::Failed(e) => if m.pending is Idle {
            (m.state, DmPending::Idle, DmPlan::Finished(Err(mismatched_event())))
        } else {
            (m.state, DmPending::Idle, DmPlan::Finished(Err(e)))
        },
        DmEvent::Sent => match m.pending {
            DmPending::Disabling { index, goal } => if index + 1 < 7 {
                (
                    m.state,
                    DmPending::Disabling { index: (index + 1) as usize, goal },
                    DmPlan::SendLifecycle(dm_motor_id(index + 1), DamiaoStatus::Disable),
                )
            } else {
                match goal {
                    DisableGoal::Connect => (
                        DmState::ConnectedUncalibrated,
                        DmPending::Idle,
                        DmPlan::Finished(Ok(())),
                    ),
                    DisableGoal::Stop => (
                        stopped_state(m.calibrated),
                        DmPending::Idle,
                        DmPlan::Finished(Ok(())),
                    ),
                    DisableGoal::ModeFault => (
                        m.state,
                        DmPending::Idle,
                        DmPlan::Finished(Err(mode_fault())),
                    ),
                }
            },
            DmPending::SettingMode { index, awaiting_ack: false } => (
                m.state,
                DmPending::SettingMode { index, awaiting_ack: true },
                DmPlan::Receive,
            ),
            DmPending::Enabling { index } => if index + 1 < 7 {
                (
                    m.state,
                    DmPending::Enabling { index: (index + 1) as usize },
                    DmPlan::SendLifecycle(dm_motor_id(index + 1), DamiaoStatus::Enable),
                )
            } else {
                (DmState::Enabled, DmPending::Idle, DmPlan::Finished(Ok(())))
            },
            _ => (m.state, DmPending::Idle, DmPlan::Finished(Err(mismatched_event()))),
        },
        DmEvent::Received(reply) => match m.pending {
            DmPending::SettingMode { index, awaiting_ack: true } => {
                let id = dm_motor_id(index as int);
                let acknowledged = match reply {
                    Some(frame) => frame.id_spec() == reply_id(id) && frame.payload()
                        == mode_payload(id, dm_motor_mode(id)),
                    None => false,
                };
                if !acknowledged {
                    (
                        m.state,
                        DmPending::Disabling { index: 0, goal: DisableGoal::ModeFault },
                        DmPlan::SendLifecycle(1, DamiaoStatus::Disable),
                    )
                } else if index + 1 < 7 {
                    (
                        m.state,
                        DmPending::SettingMode { index: (index + 1) as usize, awaiting_ack: false },
                        DmPlan::SendMode(dm_motor_id(index + 1), dm_motor_mode(dm_motor_id(index + 1))),
                    )
                } else {
                    (
                        m.state,
                        DmPending::Enabling { index: 0 },
                        DmPlan::SendLifecycle(1, DamiaoStatus::Enable),
                    )
                }
            },
            _ => (m.state, DmPending::Idle, DmPlan::Finished(Err(mismatched_event()))),
        },
    }
}

/// Pending work always concerns one of the seven motors.
pub open spec fn dm_pending_valid(pending: DmPending) -> bool {
    match pending {
        DmPending::Idle => true,
        DmPending::Disabling { index, .. } => index < 7,
        DmPending::SettingMode { index, .. } => index < 7,
        DmPending::Enabling { index } => index < 7,
    }
}

/// The adapter's condition after `events`, and the requests it made along the way.
pub open spec fn dm_run(m: DmModel, events: Seq<DmEvent>) -> (DmModel, Seq<DmPlan>)
    decreases events.len(),
{
    if events.len() == 0 {
        (m, Seq::empty())
    } else {
        let (state, pending, plan) = dm_step(m, events[0]);
        let (last, plans) = dm_run(
            DmModel { state, calibrated: m.calibrated, pending },
            events.drop_first(),
        );
        (last, seq![plan] + plans)
    }
}

/// `n` reports that the requested frame was sent.
pub open spec fn sent_events(n: nat) -> Seq<DmEvent> {
    Seq::new(n, |i: int| DmEvent::Sent)
}

/// Disable requests for the motors from `first` (0-based) to the gripper, in order.
pub open spec fn disable_requests(first: int) -> Seq<DmPlan> {
    Seq::new(
        (7 - first) as nat,
        |i: int| DmPlan::SendLifecycle(dm_motor_id(first + i), DamiaoStatus::Disable),
    )
}

/// Where a sweep of Disable frames ends: the state it leaves and its outcome.
pub open spec fn sweep_end(m: DmModel, goal: DisableGoal) -> (DmState, Result<(), DamiaoError>) {
    match goal {
        DisableGoal::Connect => (DmState::ConnectedUncalibrated, Ok(())),
        DisableGoal::Stop => (stopped_state(m.calibrated), Ok(())),
        DisableGoal::ModeFault => (m.state, Err(mode_fault())),
    }
}

/// Calibration gates the calibrated states, and enabling work happens only from the
/// calibrated, disabled state.
pub open spec fn dm_consistent(m: DmModel) -> bool {
    &&& (m.state == DmState::ConnectedDisabled || m.state == DmState::Enabled) ==> m.calibrated
    &&& (m.pending is SettingMode || m.pending is Enabling) ==> m.state == DmState::ConnectedDisabled
}

/// Once a Disable frame for motor `index` is requested, the frames that follow as each send
/// succeeds disable the remaining motors in order, and the sweep then ends as its goal says.
proof fn lemma_dm_sweep(m: DmModel, index: int, goal: DisableGoal)
    requires
        0 <= index < 7,
        m.pending == (DmPending::Disabling { index: index as usize, goal }),
    ensures
        dm_run(m, sent_events((6 - index) as nat + 1)) == ({
            let (state, outcome) = sweep_end(m, goal);
            (
                DmModel { state, calibrated: m.calibrated, pending: DmPending::Idle },
                disable_requests(index + 1) + seq![DmPlan::Finished(outcome)],
            )
        }),
    decreases 7 - index,
{
    let events = sent_events((6 - index) as nat + 1);
    assert(events[0] == DmEvent::Sent);
    if index + 1 < 7 {
        let next = DmModel {
            state: m.state,
            calibrated: m.calibrated,
            pending: DmPending::Disabling { index: (index + 1) as usize, goal },
        };
        assert(events.drop_first() =~= sent_events((6 - (index + 1)) as nat + 1));
        lemma_dm_sweep(next, index + 1, goal);
        assert(sweep_end(next, goal) == sweep_end(m, goal));
        assert(seq![DmPlan::SendLifecycle(dm_motor_id(index + 1), DamiaoStatus::Disable)]
            + disable_requests(index + 2) =~= disable_requests(index + 1));
        assert(seq![DmPlan::SendLifecycle(dm_motor_id(index + 1), DamiaoStatus::Disable)]
            + (disable_requests(index + 2) + seq![DmPlan::Finished(sweep_end(m, goal).1)])
            =~= disable_requests(index + 1) + seq![DmPlan::Finished(sweep_end(m, goal).1)]);
    } else {
        let (state, outcome) = sweep_end(m, goal);
        let last = DmModel { state, calibrated: m.calibrated, pending: DmPending::Idle };
        assert(events.drop_first() =~= Seq::<DmEvent>::empty());
        assert(dm_run(last, Seq::<DmEvent>::empty()) == (last, Seq::<DmPlan>::empty()));
        assert(disable_requests(7) =~= Seq::<DmPlan>::empty());
        assert(disable_requests(index + 1) + seq![DmPlan::Finished(sweep_end(m, goal).1)]
            =~= seq![DmPlan::Finished(sweep_end(m, goal).1)]);
    }
}

/// Connecting disables all seven motors, in order, and nothing else: no Enable, no
/// mechanical zero. When every send succeeds the adapter is connected and uncalibrated.
pub proof fn lemma_dm_connect_disables_every_motor(m: DmModel)
    requires
        m.state == DmState::Disconnected,
    ensures
        dm_run(m, seq![DmEvent::Begin(DmOperation::Connect)] + sent_events(7)) == (
            DmModel {
                state: DmState::ConnectedUncalibrated,
                calibrated: m.calibrated,
                pending: DmPending::Idle,
            },
            disable_requests(0) + seq![DmPlan::Finished(Ok(()))],
        ),
{
    let events = seq![DmEvent::Begin(DmOperation::Connect)] + sent_events(7);
    let next = DmModel {
        state: m.state,
        calibrated: m.calibrated,
        pending: DmPending::Disabling { index: 0, goal: DisableGoal::Connect },
    };
    assert(events[0] == DmEvent::Begin(DmOperation::Connect));
    assert(events.drop_first() =~= sent_events(7));
    lemma_dm_sweep(next, 0, DisableGoal::Connect);
    assert(seq![DmPlan::SendLifecycle(1, DamiaoStatus::Disable)] + (disable_requests(1) + seq![
        DmPlan::Finished(Ok(())),
    ]) =~= disable_requests(0) + seq![DmPlan::Finished(Ok(()))]);
}

/// A safe stop of a connected adapter disables all seven motors, in order; when every send
/// succeeds the adapter is disabled: calibrated-disabled if a calibration was accepted,
/// uncalibrated otherwise. A disconnected adapter has nothing to stop.
pub proof fn lemma_dm_safe_stop_disables_every_motor(m: DmModel)
    ensures
        m.state != DmState::Disconnected ==> dm_run(
            m,
            seq![DmEvent::Begin(DmOperation::SafeStop)] + sent_events(7),
        ) == (
            DmModel {
                state: stopped_state(m.calibrated),
                calibrated: m.calibrated,
                pending: DmPending::Idle,
            },
            disable_requests(0) + seq![DmPlan::Finished(Ok(()))],
        ),
        m.state == DmState::Disconnected ==> dm_run(
            m,
            seq![DmEvent::Begin(DmOperation::SafeStop)],
        ) == (
            DmModel { state: m.state, calibrated: m.calibrated, pending: DmPending::Idle },
            seq![DmPlan::Finished(Ok(()))],
        ),
{
    if m.state != DmState::Disconnected {
        let events = seq![DmEvent::Begin(DmOperation::SafeStop)] + sent_events(7);
        let next = DmModel {
            state: m.state,
            calibrated: m.calibrated,
            pending: DmPending::Disabling { index: 0, goal: DisableGoal::Stop },
        };
        assert(events[0] == DmEvent::Begin(DmOperation::SafeStop));
        assert(events.drop_first() =~= sent_events(7));
        lemma_dm_sweep(next, 0, DisableGoal::Stop);
        assert(seq![DmPlan::SendLifecycle(1, DamiaoStatus::Disable)] + (disable_requests(1)
            + seq![DmPlan::Finished(Ok(()))]) =~= disable_requests(0) + seq![
            DmPlan::Finished(Ok(())),
        ]);
    } else {
        let events = seq![DmEvent::Begin(DmOperation::SafeStop)];
        let last = DmModel { state: m.state, calibrated: m.calibrated, pending: DmPending::Idle };
        assert(events.drop_first() =~= Seq::<DmEvent>::empty());
        assert(dm_run(last, Seq::<DmEvent>::empty()) == (last, Seq::<DmPlan>::empty()));
        assert(seq![DmPlan::Finished(Ok(()))] + Seq::<DmPlan>::empty() =~= seq![
            DmPlan::Finished(Ok(())),
        ]);
    }
}

/// A missing or wrong control-mode acknowledgement during enable disables all seven
/// motors, in order, and enable then fails with the acknowledgement error, leaving the
/// state as it was.
pub proof fn lemma_dm_mode_fault_disables_every_motor(
    m: DmModel,
    index: usize,
    reply: Option<DamiaoCanFrame>,
)
    requires
        index < 7,
        m.pending == (DmPending::SettingMode { index, awaiting_ack: true }),
        !(reply matches Some(frame) && frame.id_spec() == reply_id(dm_motor_id(index as int))
            && frame.payload() == mode_payload(
            dm_motor_id(index as int),
            dm_motor_mode(dm_motor_id(index as int)),
        )),
    ensures
        dm_run(m, seq![DmEvent::Received(reply)] + sent_events(7)) == (
            DmModel { state: m.state, calibrated: m.calibrated, pending: DmPending::Idle },
            disable_requests(0) + seq![DmPlan::Finished(Err(mode_fault()))],
        ),
{
    let events = seq![DmEvent::Received(reply)] + sent_events(7);
    let next = DmModel {
        state: m.state,
        calibrated: m.calibrated,
        pending: DmPending::Disabling { index: 0, goal: DisableGoal::ModeFault },
    };
    assert(events[0] == DmEvent::Received(reply));
    assert(events.drop_first() =~= sent_events(7));
    lemma_dm_sweep(next, 0, DisableGoal::ModeFault);
    assert(seq![DmPlan::SendLifecycle(1, DamiaoStatus::Disable)] + (disable_requests(1) + seq![
        DmPlan::Finished(Err(mode_fault())),
    ]) =~= disable_requests(0) + seq![DmPlan::Finished(Err(mode_fault()))]);
}

/// The control mode of the motor at `index` in an enable: position/velocity for the six
/// arm joints, force/position for the gripper (the seventh).
pub open spec fn enable_mode(index: int) -> DamiaoControlMode {
    if index == 6 {
        DamiaoControlMode::ForcePosition
    } else {
        DamiaoControlMode::PositionVelocity
    }
}

/// `frame` acknowledges the control-mode write to the motor at `index`: it comes from the
/// motor's id plus 0x10 and echoes id, register 10 and the mode code (2, or 4 for the
/// gripper).
pub open spec fn acknowledges_mode(frame: DamiaoCanFrame, index: int) -> bool {
    &&& frame@.0 == index + 1 + 0x10
    &&& frame@.1 == seq![
        (index + 1) as u8,
        0u8,
        0x55u8,
        10u8,
        if index == 6 { 4u8 } else { 2u8 },
        0u8,
        0u8,
        0u8
    ]
}

/// What an enable reports after it began: for each motor the send of its mode write and
/// the acknowledgement, then each Enable frame sent.
pub open spec fn enable_events(acks: Seq<DamiaoCanFrame>) -> Seq<DmEvent> {
    Seq::new(
        14,
        |j: int|
            if j % 2 == 0 {
                DmEvent::Sent
            } else {
                DmEvent::Received(Some(acks[j / 2]))
            },
    ) + sent_events(7)
}

/// What a successful enable asks for: the mode write of each motor in order, each followed
/// by a read of its acknowledgement; then an Enable frame to each motor in order; then success.
pub open spec fn enable_plans() -> Seq<DmPlan> {
    Seq::new(
        14,
        |j: int|
            if j % 2 == 0 {
                DmPlan::SendMode((j / 2 + 1) as u16, enable_mode(j / 2))
            } else {
                DmPlan::Receive
            },
    ) + Seq::new(7, |i: int| DmPlan::SendLifecycle((i + 1) as u16, DamiaoStatus::Enable)) + seq![
        DmPlan::Finished(Ok(())),
    ]
}

/// The pending work after the first `j` reports of a successful enable.
pub open spec fn enable_pending(j: int) -> DmPending {
    if j < 14 {
        DmPending::SettingMode { index: (j / 2) as usize, awaiting_ack: j % 2 == 1 }
    } else {
        DmPending::Enabling { index: (j - 14) as usize }
    }
}

proof fn lemma_dm_enable_from(m: DmModel, j: int, acks: Seq<DamiaoCanFrame>)
    requires
        0 <= j < 21,
        m.state == DmState::ConnectedDisabled,
        m.pending == enable_pending(j),
        acks.len() == 7,
        forall|k: int| 0 <= k < 7 ==> acknowledges_mode(#[trigger] acks[k], k),
    ensures
        dm_run(m, enable_events(acks).skip(j)) == (
            DmModel { state: DmState::Enabled, calibrated: m.calibrated, pending: DmPending::Idle },
            enable_plans().skip(j + 1),
        ),
    decreases 21 - j,
{
    let events = enable_events(acks);
    let plans = enable_plans();
    let rest = events.skip(j);
    assert(rest[0] == events[j]);
    assert(rest.drop_first() =~= events.skip(j + 1));
    let (state, pending, plan) = dm_step(m, events[j]);
    if j < 14 && j % 2 == 1 {
        let k = j / 2;
        assert(events[j] == DmEvent::Received(Some(acks[k])));
        assert(acknowledges_mode(acks[k], k));
        assert(reply_id(dm_motor_id(k)) == k + 1 + 0x10);
        assert(mode_payload(dm_motor_id(k), dm_motor_mode(dm_motor_id(k))) =~= acks[k]@.1);
    }
    if j + 1 < 21 {
        assert(pending == enable_pending(j + 1));
        assert(plan == plans[j + 1]);
        lemma_dm_enable_from(
            DmModel { state, calibrated: m.calibrated, pending },
            j + 1,
            acks,
        );
        assert(plans.skip(j + 1) =~= seq![plans[j + 1]] + plans.skip(j + 2));
    } else {
        assert(events.skip(j + 1) =~= Seq::<DmEvent>::empty());
        let last = DmModel { state, calibrated: m.calibrated, pending };
        assert(dm_run(last, Seq::<DmEvent>::empty()) == (last, Seq::<DmPlan>::empty()));
        assert(plans.skip(j + 1) =~= seq![plans[21]]);
        assert(plans[21] == DmPlan::Finished(Ok(())));
    }
}

/// Enabling a calibrated, disabled adapter writes the control mode of every motor in order
/// (position/velocity for motors 1 to 6, force/position for motor 7), reading each
/// acknowledgement before the next write; once all seven are acknowledged it sends an
/// Enable frame to each motor, 1 to 7 in order, and only then reports the adapter enabled.
pub proof fn lemma_dm_enable_sets_modes_then_enables_every_motor(
    m: DmModel,
    acks: Seq<DamiaoCanFrame>,
)
    requires
        m.state == DmState::ConnectedDisabled,
        acks.len() == 7,
        forall|k: int| 0 <= k < 7 ==> acknowledges_mode(#[trigger] acks[k], k),
    ensures
        dm_run(m, seq![DmEvent::Begin(DmOperation::Enable)] + enable_events(acks)) == (
            DmModel { state: DmState::Enabled, calibrated: m.calibrated, pending: DmPending::Idle },
            enable_plans(),
        ),
{
    let events = seq![DmEvent::Begin(DmOperation::Enable)] + enable_events(acks);
    assert(events[0] == DmEvent::Begin(DmOperation::Enable));
    assert(events.drop_first() =~= enable_events(acks));
    let next = DmModel { state: m.state, calibrated: m.calibrated, pending: enable_pending(0) };
    assert(enable_events(acks).skip(0) =~= enable_events(acks));
    lemma_dm_enable_from(next, 0, acks);
    assert(enable_plans()[0] == DmPlan::SendMode(1, DamiaoControlMode::PositionVelocity));
    assert(enable_plans() =~= seq![enable_plans()[0]] + enable_plans().skip(1));
}

/// The Disable sweep addresses motors 1 to 7, in order.
pub proof fn lemma_dm_disable_requests_in_order()
    ensures
        disable_requests(0) == Seq::new(
            7,
            |i: int| DmPlan::SendLifecycle((i + 1) as u16, DamiaoStatus::Disable),
        ),
{
    assert(disable_requests(0) =~= Seq::new(
        7,
        |i: int| DmPlan::SendLifecycle((i + 1) as u16, DamiaoStatus::Disable),
    ));
}

/// Every step keeps the adapter consistent: the calibrated states need an accepted
/// calibration, and enabling work only happens from the calibrated, disabled state.
pub proof fn lemma_dm_step_keeps_consistent(m: DmModel, event: DmEvent)
    requires
        dm_consistent(m),
    ensures
        ({
            let (state, pending, plan) = dm_step(m, event);
            dm_consistent(DmModel { state, calibrated: m.calibrated, pending })
        }),
{
}

/// Enabling is gated by acknowledgements: the adapter becomes Enabled only when the
/// gripper's Enable frame was sent; Enable frames are sent only after the gripper's
/// control-mode write was acknowledged; and each control-mode write after the first only
/// follows the acknowledgement of the one before it.
pub proof fn lemma_dm_enable_only_after_acknowledgements(m: DmModel, event: DmEvent)
    requires
        dm_pending_valid(m.pending),
    ensures
        ({
            let (state, pending, plan) = dm_step(m, event);
            &&& state == DmState::Enabled && m.state != DmState::Enabled ==> m.pending
                == DmPending::Enabling { index: 6 } && event is Sent
            &&& plan matches DmPlan::SendLifecycle(_, DamiaoStatus::Enable) ==> pending is Enabling
            &&& (pending is Enabling && !(m.pending is Enabling)) ==> {
                &&& pending == DmPending::Enabling { index: 0 }
                &&& m.pending == DmPending::SettingMode { index: 6, awaiting_ack: true }
                &&& event matches DmEvent::Received(Some(frame)) && frame.id_spec() == reply_id(7)
                    && frame.payload() == mode_payload(7, DamiaoControlMode::ForcePosition)
            }
            &&& match pending {
                DmPending::SettingMode { index, awaiting_ack: false } => index > 0 ==> {
                    &&& m.pending == DmPending::SettingMode {
                        index: (index - 1) as usize,
                        awaiting_ack: true,
                    }
                    &&& event matches DmEvent::Received(Some(frame)) && frame.id_spec()
                        == reply_id(dm_motor_id(index - 1)) && frame.payload() == mode_payload(
                        dm_motor_id(index - 1),
                        dm_motor_mode(dm_motor_id(index - 1)),
                    )
                },
                _ => true,
            }
        }),
{
}

/// The B601-DM adapter over a Damiao transport `T`.
pub struct DmAdapter<T> {
    transport: T,
    state: DmState,
    calibration_id: Option<String>,
    pending: DmPending,
}

impl<T> DmAdapter<T> {
    pub closed spec fn model(&self) -> DmModel {
        DmModel {
            state: self.state,
            calibrated: self.calibration_id is Some,
            pending: self.pending,
        }
    }

    /// The accepted calibration identity, if any.
    pub closed spec fn calibration(&self) -> Option<Seq<char>> {
        match self.calibration_id {
            Some(id) => Some(id@),
            None => None,
        }
    }

    pub closed spec fn transport_spec(&self) -> T {
        self.transport
    }

    /// The pending work is always about one of the seven motors.
    pub closed spec fn wf(&self) -> bool {
        dm_pending_valid(self.pending)
    }

    pub fn new(transport: T) -> (adapter: Self)
        ensures
            adapter.wf(),
            adapter.transport_spec() == transport,
            adapter.model() == (DmModel {
                state: DmState::Disconnected,
                calibrated: false,
                pending: DmPending::Idle,
            }),
            adapter.calibration() is None,
    {
        DmAdapter {
            transport,
            state: DmState::Disconnected,
            calibration_id: None,
            pending: DmPending::Idle,
        }
    }

    pub fn state(&self) -> (state: DmState)
        ensures
            state == self.model().state,
    {
        self.state
    }

    /// The transport, for the owner to perform the requested work.
    pub fn transport_mut(&mut self) -> (transport: &mut T)
        ensures
            *transport == old(self).transport_spec(),
            final(self).transport_spec() == *final(transport),
            final(self).model() == old(self).model(),
            final(self).calibration() == old(self).calibration(),
            old(self).wf() ==> final(self).wf(),
    {
        &mut self.transport
    }

    /// Takes the owner's report and says what to do next, following `dm_step`.
    pub fn step(&mut self, event: DmEvent) -> (request: DmRequest)
        requires
            old(self).wf(),
        ensures
            final(self).wf(),
            final(self).transport_spec() == old(self).transport_spec(),
            final(self).calibration() == old(self).calibration(),
            final(self).model().calibrated == old(self).model().calibrated,
            ({
                let (state, pending, plan) = dm_step(old(self).model(), event);
                &&& final(self).model().state == state
                &&& final(self).model().pending == pending
                &&& request_is(request, plan)
            }),
    {
        let pending = self.pending;
        self.pending = DmPending::Idle;
        match event {
            DmEvent::Begin(DmOperation::Connect) => {
                if self.state != DmState::Disconnected {
                    return DmRequest::Finished(
                        Err(DamiaoError::Frame("adapter is already connected")),
                    );
                }
                self.pending = DmPending::Disabling { index: 0, goal: DisableGoal::Connect };
                DmRequest::Send(lifecycle_frame(1, DamiaoStatus::Disable))
            },
            DmEvent::Begin(DmOperation::SafeStop) => {
                if self.state == DmState::Disconnected {
                    return DmRequest::Finished(Ok(()));
                }
                self.pending = DmPending::Disabling { index: 0, goal: DisableGoal::Stop };
                DmRequest::Send(lifecycle_frame(1, DamiaoStatus::Disable))
            },
            DmEvent::Begin(DmOperation::Enable) => {
                if self.state != DmState::ConnectedDisabled {
                    return DmRequest::Finished(
                        Err(DamiaoError::Frame("enable requires calibrated disabled state")),
                    );
                }
                self.pending = DmPending::SettingMode { index: 0, awaiting_ack: false };
                DmRequest::Send(mode_frame(1, DamiaoControlMode::PositionVelocity))
            },
            DmEvent::Failed(e) => {
                if pending == DmPending::Idle {
                    return DmRequest::Finished(
                        Err(DamiaoError::Frame("transport event does not answer the pending request")),
                    );
                }
                DmRequest::Finished(Err(e))
            },
            DmEvent::Sent => match pending {
                DmPending::Disabling { index, goal } => {
                    if index + 1 < 7 {
                        self.pending = DmPending::Disabling { index: index + 1, goal };
                        return DmRequest::Send(
                            lifecycle_frame(B601_DM_MOTOR_IDS[index + 1], DamiaoStatus::Disable),
                        );
                    }
                    match goal {
                        DisableGoal::Connect => {
                            self.state = DmState::ConnectedUncalibrated;
                            DmRequest::Finished(Ok(()))
                        },
                        DisableGoal::Stop => {
                            self.state = if self.calibration_id.is_some() {
                                DmState::ConnectedDisabled
                            } else {
                                DmState::ConnectedUncalibrated
                            };
                            DmRequest::Finished(Ok(()))
                        },
                        DisableGoal::ModeFault => DmRequest::Finished(
                            Err(DamiaoError::Frame("control mode acknowledgement missing or mismatched")),
                        ),
                    }
                },
                DmPending::SettingMode { index, awaiting_ack: false } => {
                    self.pending = DmPending::SettingMode { index, awaiting_ack: true };
                    DmRequest::Receive
                },
                DmPending::Enabling { index } => {
                    if index + 1 < 7 {
                        self.pending = DmPending::Enabling { index: index + 1 };
                        return DmRequest::Send(
                            lifecycle_frame(B601_DM_MOTOR_IDS[index + 1], DamiaoStatus::Enable),
                        );
                    }
                    self.state = DmState::Enabled;
                    DmRequest::Finished(Ok(()))
                },
                _ => DmRequest::Finished(
                    Err(DamiaoError::Frame("transport event does not answer the pending request")),
                ),
            },
            DmEvent::Received(reply) => match pending {
                DmPending::SettingMode { index, awaiting_ack: true } => {
                    let id = B601_DM_MOTOR_IDS[index];
                    let mode = if id == 7 {
                        DamiaoControlMode::ForcePosition
                    } else {
                        DamiaoControlMode::PositionVelocity
                    };
                    let acknowledged = match reply {
                        Some(frame) => is_damiao_mode_ack(frame, id, mode),
                        None => false,
                    };
                    if !acknowledged {
                        self.pending = DmPending::Disabling { index: 0, goal: DisableGoal::ModeFault };
                        return DmRequest::Send(lifecycle_frame(1, DamiaoStatus::Disable));
                    }
                    if index + 1 < 7 {
                        let next = B601_DM_MOTOR_IDS[index + 1];
                        let next_mode = if next == 7 {
                            DamiaoControlMode::ForcePosition
                        } else {
                            DamiaoControlMode::PositionVelocity
                        };
                        self.pending = DmPending::SettingMode { index: index + 1, awaiting_ack: false };
                        return DmRequest::Send(mode_frame(next, next_mode));
                    }
                    self.pending = DmPending::Enabling { index: 0 };
                    DmRequest::Send(lifecycle_frame(1, DamiaoStatus::Enable))
                },
                _ => DmRequest::Finished(
                    Err(DamiaoError::Frame("transport event does not answer the pending request")),
                ),
            },
        }
    }

    pub fn into_transport(self) -> (transport: T)
        ensures
            transport == self.transport_spec(),
    {
        self.transport
    }

    /// Accepts a persisted calibration identity; only a connected, uncalibrated adapter
    /// accepts one, and never a blank identity.
    pub fn accept_calibration(&mut self, id: &str) -> (result: Result<(), DamiaoError>)
        requires
            old(self).wf(),
        ensures
            final(self).wf(),
            final(self).transport_spec() == old(self).transport_spec(),
            final(self).model().pending == old(self).model().pending,
            old(self).model().state != DmState::ConnectedUncalibrated ==> result == Err::<
                (),
                DamiaoError,
            >(DamiaoError::Frame("calibration requires uncalibrated connected state")),
            old(self).model().state == DmState::ConnectedUncalibrated && is_blank(id@) ==> result
                == Err::<(), DamiaoError>(DamiaoError::Frame("calibration id is empty")),
            result is Err ==> final(self).model() == old(self).model() && final(self).calibration()
                == old(self).calibration(),
            result is Ok <==> old(self).model().state == DmState::ConnectedUncalibrated && !is_blank(
                id@,
            ),
            result is Ok ==> final(self).model() == (DmModel {
                state: DmState::ConnectedDisabled,
                calibrated: true,
                ..old(self).model()
            }) && final(self).calibration() == Some(id@),
    {
        if self.state != DmState::ConnectedUncalibrated {
            return Err(DamiaoError::Frame("calibration requires uncalibrated connected state"));
        }
        if is_blank_str(id) {
            return Err(DamiaoError::Frame("calibration id is empty"));
        }
        self.calibration_id = Some(id.to_owned());
        self.state = DmState::ConnectedDisabled;
        Ok(())
    }
}

} // verus!
