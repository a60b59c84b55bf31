//! The B601-RS robot adapter: lifecycle, action gating and feedback supervision above the
//! RobStride MIT frames.
//!
//! The adapter is a state machine. Its owner performs the CAN work it asks for and reports
//! what happened. Floating-point work (target bounding and quantization, feedback scaling)
//! stays with the owner, which hands in finished frames and finiteness verdicts.

use std::collections::VecDeque;
use vstd::prelude::*;

use crate::rs_mit::{
    decode_rs_mit_feedback_fields, rs_feedback_fields, rs_lifecycle_frame, rs_lifecycle_payload,
    RsCanFrame, RsMitError, RS_THERMAL_LIMIT_DECIDEGREES,
};
use crate::text::{is_blank, is_blank_str};

verus! {

/// The seven B601-RS actuators, in command order.
pub const B601_RS_MOTOR_IDS: [u16; 7] = [1, 2, 3, 4, 5, 6, 7];

#[derive(Clone, Copy, Debug, PartialEq, Eq, Structural)]
pub enum RsState {
    Disconnected,
    ConnectedUncalibrated,
    ConnectedDisabled,
    Enabled,
    Faulted,
}

/// An adapter operation that needs CAN work.
pub enum RsOperation {
    Connect,
    /// Enable every motor; `gains_valid` says whether the configured MIT gains lie within
    /// the vendor ranges.
    Enable { gains_valid: bool },
    SafeStop,
    /// Send one MIT command per joint, in joint order. `positions_finite` says whether every
    /// requested position is finite; `commands` holds the seven encoded commands (or the
    /// error of encoding them).
    ApplyAction {
        timestamp_ns: u64,
        positions_finite: bool,
        commands: Vec<Result<RsCanFrame, RsMitError>>,
    },
    /// Receive one feedback frame per motor; `limits_valid` says, per motor, whether its
    /// configured limits can decode feedback.
    Observe { limits_valid: [bool; 7] },
}

/// What the owner reports to the adapter.
pub enum RsEvent {
    Begin(RsOperation),
    Sent,
    /// The requested receive completed; `None` when no frame arrived in time.
    Received(Option<RsCanFrame>),
    Failed(RsMitError),
}

/// What a finished operation yields.
pub enum RsReply {
    Done,
    /// One accepted feedback frame per motor, in motor order.
    Feedback([RsCanFrame; 7]),
}

/// What the adapter asks of its owner next.
pub enum RsRequest {
    Send(RsCanFrame),
    Receive,
    Finished(Result<RsReply, RsMitError>),
}

/// Why the adapter is disabling every motor.
#[derive(Clone, Copy, Debug, PartialEq, Eq, Structural)]
pub enum RsDisableGoal {
    Connect,
    Stop,
    /// Feedback failed during an observation: stop, then report the failure.
    Fault,
}

/// The CAN work the adapter is waiting for.
#[derive(Clone, Copy, Debug, PartialEq, Eq, Structural)]
pub enum RsPending {
    Idle,
    Disabling { index: usize, goal: RsDisableGoal },
    Enabling { index: usize },
    Commanding { index: usize, timestamp_ns: u64 },
    Observing { index: usize },
}

/// The spec-level description of a request.
pub enum RsPlan {
    SendLifecycle(u16, bool),
    SendFrame(RsCanFrame),
    Receive,
    FinishedDone,
    FinishedFeedback(Seq<RsCanFrame>),
    FinishedErr(RsMitError),
}

pub open spec fn rs_request_is(request: RsRequest, plan: RsPlan) -> bool {
    match (request, plan) {
        (RsRequest::Send(frame), RsPlan::SendLifecycle(id, enabled)) => frame@ == (
            id,
            rs_lifecycle_payload(enabled),
        ),
        (RsRequest::Send(frame), RsPlan::SendFrame(f)) => frame == f,
        (RsRequest::Receive, RsPlan::Receive) => true,
        (RsRequest::Finished(Ok(RsReply::Done)), RsPlan::FinishedDone) => true,
        (RsRequest::Finished(Ok(RsReply::Feedback(frames))), RsPlan::FinishedFeedback(s)) => frames@
            == s,
        (RsRequest::Finished(Err(e)), RsPlan::FinishedErr(f)) => e == f,
        _ => false,
    }
}

/// The adapter's observable condition.
pub struct RsModel {
    pub state: RsState,
    pub calibrated: bool,
    pub last_action_ns: Option<u64>,
    pub pending: RsPending,
    /// Commands of the action in progress still to send.
    pub commands: Seq<Result<RsCanFrame, RsMitError>>,
    /// The failure to report once a fault stop has ended.
    pub fault: Option<RsMitError>,
    /// Feedback accepted so far in the observation in progress.
    pub received: Seq<RsCanFrame>,
    /// Per motor, whether its limits can decode feedback (for the observation in progress).
    pub limits_valid: Seq<bool>,
}

pub open spec fn rs_mismatch() -> RsMitError {
    RsMitError::Frame("transport event does not answer the pending request")
}

pub open spec fn rs_stopped_state(calibrated: bool) -> RsState {
    if calibrated {
        RsState::ConnectedDisabled
    } else {
        RsState::ConnectedUncalibrated
    }
}

/// Whether a feedback frame is acceptable from motor `motor_id`: it names that motor and
/// its temperature is below the thermal stop.
pub open spec fn feedback_acceptable(frame: RsCanFrame, motor_id: int) -> bool {
    let fields = rs_feedback_fields(frame.payload());
    fields.motor_id == motor_id && fields.temperature_decidegrees < RS_THERMAL_LIMIT_DECIDEGREES
}

/// Starting a fault stop: disable every motor, then report `error`.
pub open spec fn fault_stop(m: RsModel, error: RsMitError) -> (RsModel, RsPlan) {
    (
        RsModel {
            pending: RsPending::Disabling { index: 0, goal: RsDisableGoal::Fault },
            fault: Some(error),
            commands: Seq::empty(),
            received: Seq::empty(),
            ..m
        },
        RsPlan::SendLifecycle(1, false),
    )
}

/// Whether an action stamped `timestamp_ns` may be applied: only while enabled, only after
/// the last applied action, and only with finite positions, checked in that order.
pub open spec fn rs_action_check(m: RsModel, timestamp_ns: u64, positions_finite: bool) -> Result<
    (),
    RsMitError,
> {
    if m.state != RsState::Enabled {
        Err(RsMitError::Frame("action requires enabled state"))
    } else if (m.last_action_ns matches Some(last) && timestamp_ns <= last) {
        Err(RsMitError::Frame("action timestamp is not monotonic"))
    } else if !positions_finite {
        Err(RsMitError::Frame("action contains non-finite position"))
    } else {
        Ok(())
    }
}

/// The adapter transition: the new condition and the request to the owner.
pub open spec fn rs_step(m: RsModel, event: RsEvent) -> (RsModel, RsPlan) {
    let idle = RsModel {
        pending: RsPending::Idle,
        commands: Seq::empty(),
        fault: None,
        received: Seq::empty(),
        ..m
    };
    match event {
        RsEvent::Begin(RsOperation::Connect) => if m.state != RsState::Disconnected {
            (idle, RsPlan::FinishedErr(RsMitError::Frame("adapter is already connected")))
        } else {
            (
                RsModel { pending: RsPending::Disabling { index: 0, goal: RsDisableGoal::Connect }, ..idle },
                RsPlan::SendLifecycle(1, false),
            )
        },
        RsEvent::Begin(RsOperation::Enable { gains_valid }) => if m.state
            != RsState::ConnectedDisabled {
            (
                idle,
                RsPlan::FinishedErr(RsMitError::Frame("enable requires calibrated disabled state")),
            )
        } else if !gains_valid {
            (idle, RsPlan::FinishedErr(RsMitError::Frame("configured MIT gains are invalid")))
        } else {
            (
                RsModel { pending: RsPending::Enabling { index: 0 }, ..idle },
                RsPlan::SendLifecycle(1, true),
            )
        },
        RsEvent::Begin(RsOperation::SafeStop) => if m.state == RsState::Disconnected {
            (idle, RsPlan::FinishedDone)
        } else {
            (
                RsModel { pending: RsPending::Disabling { index: 0, goal: RsDisableGoal::Stop }, ..idle },
                RsPlan::SendLifecycle(1, false),
            )
        },
        RsEvent::Begin(RsOperation::ApplyAction { timestamp_ns, positions_finite, commands }) => if let Err(
            e,
        ) = rs_action_check(m, timestamp_ns, positions_finite) {
            (idle, RsPlan::FinishedErr(e))
        } else {
            match commands@[0] {
                Err(e) => (idle, RsPlan::FinishedErr(e)),
                Ok(frame) => (
                    RsModel {
                        pending: RsPending::Commanding { index: 0, timestamp_ns },
                        commands: commands@.drop_first(),
                        ..idle
                    },
                    RsPlan::SendFrame(frame),
                ),
            }
        },
        RsEvent::Begin(RsOperation::Observe { limits_valid }) => if m.state != RsState::Enabled {
            (idle, RsPlan::FinishedErr(RsMitError::Frame("observation requires enabled state")))
        } else {
            (
                RsModel {
                    pending: RsPending::Observing { index: 0 },
                    limits_valid: limits_valid@,
                    ..idle
                },
                RsPlan::Receive,
            )
        },
        RsEvent::Sent => match m.pending {
            RsPending::Disabling { index, goal } => if index + 1 < 7 {
                (
                    RsModel { pending: RsPending::Disabling { index: (index + 1) as usize, goal }, ..m },
                    RsPlan::SendLifecycle((index + 2) as u16, false),
                )
            } else {
                match goal {
                    RsDisableGoal::Connect => (
                        RsModel { state: RsState::ConnectedUncalibrated, ..idle },
                        RsPlan::FinishedDone,
                    ),
                    RsDisableGoal::Stop => (
                        RsModel { state: rs_stopped_state(m.calibrated), ..idle },
                        RsPlan::FinishedDone,
                    ),
                    RsDisableGoal::Fault => (
                        RsModel { state: rs_stopped_state(m.calibrated), ..idle },
                        RsPlan::FinishedErr(m.fault.unwrap()),
                    ),
                }
            },
            RsPending::Enabling { index } => if index + 1 < 7 {
                (
                    RsModel { pending: RsPending::Enabling { index: (index + 1) as usize }, ..m },
                    RsPlan::SendLifecycle((index + 2) as u16, true),
                )
            } else {
                (RsModel { state: RsState::Enabled, ..idle }, RsPlan::FinishedDone)
            },
            RsPending::Commanding { index, timestamp_ns } => if index + 1 < 7 {
                match m.commands[0] {
                    Err(e) => (idle, RsPlan::FinishedErr(e)),
                    Ok(frame) => (
                        RsModel {
                            pending: RsPending::Commanding { index: (index + 1) as usize, timestamp_ns },
                            commands: m.commands.drop_first(),
                            ..m
                        },
                        RsPlan::SendFrame(frame),
                    ),
                }
            } else {
                (RsModel { last_action_ns: Some(timestamp_ns), ..idle }, RsPlan::FinishedDone)
            },
            _ => (idle, RsPlan::FinishedErr(rs_mismatch())),
        },
        RsEvent::Received(reply) => match m.pending {
            RsPending::Observing { index } => match reply {
                None => fault_stop(m, RsMitError::Frame("missing motor feedback")),
                Some(frame) => if !m.limits_valid[index as int] {
                    fault_stop(m, RsMitError::Frame("feedback limits are invalid"))
                } else if !feedback_acceptable(frame, index + 1) {
                    fault_stop(m, RsMitError::Frame("motor feedback mismatch or thermal limit"))
                } else if index + 1 < 7 {
                    (
                        RsModel {
                            pending: RsPending::Observing { index: (index + 1) as usize },
                            received: m.received.push(frame),
                            ..m
                        },
                        RsPlan::Receive,
                    )
                } else {
                    (idle, RsPlan::FinishedFeedback(m.received.push(frame)))
                },
            },
            _ => (idle, RsPlan::FinishedErr(rs_mismatch())),
        },
        RsEvent::Failed(e) => match m.pending {
            RsPending::Idle => (idle, RsPlan::FinishedErr(rs_mismatch())),
            RsPending::Observing { .. } => fault_stop(m, e),
            RsPending::Disabling { goal: RsDisableGoal::Fault, .. } => (
                idle,
                RsPlan::FinishedErr(m.fault.unwrap()),
            ),
            _ => (idle, RsPlan::FinishedErr(e)),
        },
    }
}

/// The calibrated states need an accepted calibration; each kind of pending work belongs
/// to the state it was started from and carries what it needs.
pub open spec fn rs_consistent(m: RsModel) -> bool {
    &&& (m.state == RsState::ConnectedDisabled || m.state == RsState::Enabled) ==> m.calibrated
    &&& m.pending is Enabling ==> m.state == RsState::ConnectedDisabled
    &&& (m.pending is Commanding || m.pending is Observing) ==> m.state == RsState::Enabled
    &&& m.limits_valid.len() == 7
    &&& match m.pending {
        RsPending::Idle => m.commands.len() == 0 && m.fault is None && m.received.len() == 0,
        RsPending::Disabling { index, goal } => index < 7 && m.commands.len() == 0 && (goal
            is Fault <==> m.fault is Some) && m.received.len() == 0,
        RsPending::Enabling { index } => index < 7 && m.commands.len() == 0 && m.fault is None
            && m.received.len() == 0,
        RsPending::Commanding { index, .. } => index < 7 && m.commands.len() == 6 - index
            && m.fault is None && m.received.len() == 0,
        RsPending::Observing { index } => index < 7 && m.received.len() == index
            && m.commands.len() == 0 && m.fault is None,
    }
    &&& (m.pending matches RsPending::Commanding { timestamp_ns, .. } ==> (m.last_action_ns matches Some(
        last,
    ) ==> timestamp_ns > last))
    &&& forall|i: int|
        0 <= i < m.received.len() ==> feedback_acceptable(#[trigger] m.received[i], i + 1)
}

/// Every step keeps the adapter consistent (an action hands in seven commands).
pub proof fn lemma_rs_step_keeps_consistent(m: RsModel, event: RsEvent)
    requires
        rs_consistent(m),
        event matches RsEvent::Begin(RsOperation::ApplyAction { commands, .. }) ==> commands@.len()
            == 7,
    ensures
        rs_consistent(rs_step(m, event).0),
        rs_step(m, event).0.calibrated == m.calibrated,
{
}

/// The timestamp of the last applied action only ever grows: an action is accepted only
/// with a later timestamp, and nothing else changes it.
pub proof fn lemma_rs_action_timestamps_increase(m: RsModel, event: RsEvent)
    requires
        rs_consistent(m),
        event matches RsEvent::Begin(RsOperation::ApplyAction { commands, .. }) ==> commands@.len()
            == 7,
    ensures
        ({
            let next = rs_step(m, event).0;
            next.last_action_ns == m.last_action_ns || (next.last_action_ns matches Some(t) && (
            m.last_action_ns matches Some(last) ==> t > last))
        }),
{
}

/// An action frame is sent only while enabled and only for an action whose timestamp is
/// later than the last applied one and whose positions are all finite.
pub proof fn lemma_rs_actions_gated(m: RsModel, event: RsEvent)
    requires
        rs_consistent(m),
        event matches RsEvent::Begin(RsOperation::ApplyAction { commands, .. }) ==> commands@.len()
            == 7,
    ensures
        rs_step(m, event).1 is SendFrame ==> m.state == RsState::Enabled,
        match event {
            RsEvent::Begin(RsOperation::ApplyAction { timestamp_ns, positions_finite, .. }) => rs_step(
                m,
                event,
            ).1 is SendFrame ==> positions_finite && (m.last_action_ns matches Some(last)
                ==> timestamp_ns > last),
            _ => true,
        },
{
}

/// Observations only ever deliver feedback that names the expected motor, in motor order,
/// and is below the thermal stop.
pub proof fn lemma_rs_feedback_accepted_only_when_safe(m: RsModel, event: RsEvent)
    requires
        rs_consistent(m),
    ensures
        rs_step(m, event).1 matches RsPlan::FinishedFeedback(frames) ==> frames.len() == 7 && forall|
            i: int,
        | 0 <= i < 7 ==> feedback_acceptable(#[trigger] frames[i], i + 1),
{
    if let RsPlan::FinishedFeedback(frames) = rs_step(m, event).1 {
        assert forall|i: int| 0 <= i < 7 implies feedback_acceptable(#[trigger] frames[i], i + 1) by {
            if i < m.received.len() {
                assert(frames[i] == m.received[i]);
            }
        }
    }
}

/// Motors are enabled only on explicit request: an Enable frame is asked for only as the
/// first step of an enable of a calibrated, disabled adapter whose gains are valid, or while
/// such an enable is under way; and the adapter becomes enabled only once the last Enable
/// frame was sent.
pub proof fn lemma_rs_enable_only_on_request(m: RsModel, event: RsEvent)
    requires
        rs_consistent(m),
        event matches RsEvent::Begin(RsOperation::ApplyAction { commands, .. }) ==> commands@.len()
            == 7,
    ensures
        rs_step(m, event).1 matches RsPlan::SendLifecycle(_, true) ==> {
            ||| m.pending is Enabling && event is Sent
            ||| {
                &&& event == RsEvent::Begin(RsOperation::Enable { gains_valid: true })
                &&& m.state == RsState::ConnectedDisabled
                &&& m.calibrated
            }
        },
        rs_step(m, event).0.state == RsState::Enabled && m.state != RsState::Enabled ==> m.pending
            == (RsPending::Enabling { index: 6 }) && event is Sent,
{
}

/// The adapter's condition after `events`, and the requests it made along the way.
pub open spec fn rs_run(m: RsModel, events: Seq<RsEvent>) -> (RsModel, Seq<RsPlan>)
    decreases events.len(),
{
    if events.len() == 0 {
        (m, Seq::empty())
    } else {
        let (next, plan) = rs_step(m, events[0]);
        let (last, plans) = rs_run(next, events.drop_first());
        (last, seq![plan] + plans)
    }
}

/// `n` reports that the requested frame was sent.
pub open spec fn rs_sent_events(n: nat) -> Seq<RsEvent> {
    Seq::new(n, |i: int| RsEvent::Sent)
}

/// Disable requests for the motors from `first` (0-based) to the gripper, in order.
pub open spec fn rs_disable_requests(first: int) -> Seq<RsPlan> {
    Seq::new((7 - first) as nat, |i: int| RsPlan::SendLifecycle((first + i + 1) as u16, false))
}

/// How a sweep of Disable frames ends: the state it leaves and its final request.
pub open spec fn rs_sweep_end(m: RsModel, goal: RsDisableGoal) -> (RsState, RsPlan) {
    match goal {
        RsDisableGoal::Connect => (RsState::ConnectedUncalibrated, RsPlan::FinishedDone),
        RsDisableGoal::Stop => (rs_stopped_state(m.calibrated), RsPlan::FinishedDone),
        RsDisableGoal::Fault => (rs_stopped_state(m.calibrated), RsPlan::FinishedErr(m.fault.unwrap())),
    }
}

proof fn lemma_rs_sweep(m: RsModel, index: int, goal: RsDisableGoal)
    requires
        0 <= index < 7,
        m.pending == (RsPending::Disabling { index: index as usize, goal }),
    ensures
        ({
            let (last, plans) = rs_run(m, rs_sent_events((6 - index) as nat + 1));
            &&& last.state == rs_sweep_end(m, goal).0
            &&& last.pending == RsPending::Idle
            &&& last.calibrated == m.calibrated
            &&& plans == rs_disable_requests(index + 1) + seq![rs_sweep_end(m, goal).1]
        }),
    decreases 7 - index,
{
    let events = rs_sent_events((6 - index) as nat + 1);
    assert(events[0] == RsEvent::Sent);
    if index + 1 < 7 {
        let next = rs_step(m, RsEvent::Sent).0;
        assert(events.drop_first() =~= rs_sent_events((6 - (index + 1)) as nat + 1));
        lemma_rs_sweep(next, index + 1, goal);
        assert(rs_sweep_end(next, goal) == rs_sweep_end(m, goal));
        assert(seq![RsPlan::SendLifecycle((index + 2) as u16, false)] + (rs_disable_requests(
            index + 2,
        ) + seq![rs_sweep_end(m, goal).1]) =~= rs_disable_requests(index + 1) + seq![
            rs_sweep_end(m, goal).1,
        ]);
    } else {
        let last = rs_step(m, RsEvent::Sent).0;
        assert(events.drop_first() =~= Seq::<RsEvent>::empty());
        assert(rs_run(last, Seq::<RsEvent>::empty()) == (last, Seq::<RsPlan>::empty()));
        assert(rs_disable_requests(7) =~= Seq::<RsPlan>::empty());
        assert(seq![rs_sweep_end(m, goal).1] + Seq::<RsPlan>::empty() =~= rs_disable_requests(
            index + 1,
        ) + seq![rs_sweep_end(m, goal).1]);
    }
}

proof fn lemma_rs_enable_sweep(m: RsModel, index: int)
    requires
        0 <= index < 7,
        m.pending == (RsPending::Enabling { index: index as usize }),
    ensures
        ({
            let (last, plans) = rs_run(m, rs_sent_events((7 - index) as nat));
            &&& last.state == RsState::Enabled
            &&& last.pending == RsPending::Idle
            &&& last.calibrated == m.calibrated
            &&& plans == Seq::new(
                (6 - index) as nat,
                |k: int| RsPlan::SendLifecycle((index + 2 + k) as u16, true),
            ) + seq![RsPlan::FinishedDone]
        }),
    decreases 7 - index,
{
    let events = rs_sent_events((7 - index) as nat);
    assert(events[0] == RsEvent::Sent);
    let next = rs_step(m, RsEvent::Sent).0;
    if index + 1 < 7 {
        assert(events.drop_first() =~= rs_sent_events((7 - (index + 1)) as nat));
        lemma_rs_enable_sweep(next, index + 1);
        assert(seq![RsPlan::SendLifecycle((index + 2) as u16, true)] + (Seq::new(
            (6 - (index + 1)) as nat,
            |k: int| RsPlan::SendLifecycle((index + 3 + k) as u16, true),
        ) + seq![RsPlan::FinishedDone]) =~= Seq::new(
            (6 - index) as nat,
            |k: int| RsPlan::SendLifecycle((index + 2 + k) as u16, true),
        ) + seq![RsPlan::FinishedDone]);
    } else {
        assert(events.drop_first() =~= Seq::<RsEvent>::empty());
        assert(rs_run(next, Seq::<RsEvent>::empty()) == (next, Seq::<RsPlan>::empty()));
        assert(seq![RsPlan::FinishedDone] + Seq::<RsPlan>::empty() =~= Seq::new(
            (6 - index) as nat,
            |k: int| RsPlan::SendLifecycle((index + 2 + k) as u16, true),
        ) + seq![RsPlan::FinishedDone]);
    }
}

/// Enabling a disabled adapter with valid gains, when every send succeeds, asks for exactly
/// one Enable frame per motor, for motors 1 to 7 in order, and only then reports the
/// adapter enabled.
pub proof fn lemma_rs_enable_enables_every_motor(m: RsModel)
    requires
        m.state == RsState::ConnectedDisabled,
    ensures
        ({
            let (last, plans) = rs_run(
                m,
                seq![RsEvent::Begin(RsOperation::Enable { gains_valid: true })] + rs_sent_events(7),
            );
            &&& last.state == RsState::Enabled
            &&& last.pending == RsPending::Idle
            &&& plans == Seq::new(7, |i: int| RsPlan::SendLifecycle((i + 1) as u16, true)) + seq![
                RsPlan::FinishedDone,
            ]
        }),
{
    let events = seq![RsEvent::Begin(RsOperation::Enable { gains_valid: true })] + rs_sent_events(7);
    let next = rs_step(m, events[0]).0;
    assert(rs_step(m, events[0]).1 == RsPlan::SendLifecycle(1, true));
    assert(events.drop_first() =~= rs_sent_events(7));
    lemma_rs_enable_sweep(next, 0);
    assert(seq![RsPlan::SendLifecycle(1, true)] + (Seq::new(
        6,
        |k: int| RsPlan::SendLifecycle((2 + k) as u16, true),
    ) + seq![RsPlan::FinishedDone]) =~= Seq::new(
        7,
        |i: int| RsPlan::SendLifecycle((i + 1) as u16, true),
    ) + seq![RsPlan::FinishedDone]);
}

proof fn lemma_rs_command_sweep(
    m: RsModel,
    index: int,
    timestamp_ns: u64,
    frames: Seq<Result<RsCanFrame, RsMitError>>,
)
    requires
        0 <= index < 7,
        frames.len() == 7,
        forall|i: int| 0 <= i < 7 ==> (#[trigger] frames[i]) is Ok,
        m.pending == (RsPending::Commanding { index: index as usize, timestamp_ns }),
        m.commands == frames.skip(index + 1),
    ensures
        ({
            let (last, plans) = rs_run(m, rs_sent_events((7 - index) as nat));
            &&& last.state == m.state
            &&& last.last_action_ns == Some(timestamp_ns)
            &&& last.pending == RsPending::Idle
            &&& plans == Seq::new(
                (6 - index) as nat,
                |k: int| RsPlan::SendFrame(frames[index + 1 + k]->Ok_0),
            ) + seq![RsPlan::FinishedDone]
        }),
    decreases 7 - index,
{
    let events = rs_sent_events((7 - index) as nat);
    assert(events[0] == RsEvent::Sent);
    let next = rs_step(m, RsEvent::Sent).0;
    if index + 1 < 7 {
        assert(m.commands[0] == frames[index + 1]);
        assert(frames[index + 1] is Ok);
        assert(m.commands.drop_first() =~= frames.skip(index + 2));
        assert(events.drop_first() =~= rs_sent_events((7 - (index + 1)) as nat));
        lemma_rs_command_sweep(next, index + 1, timestamp_ns, frames);
        assert(seq![RsPlan::SendFrame(frames[index + 1]->Ok_0)] + (Seq::new(
            (6 - (index + 1)) as nat,
            |k: int| RsPlan::SendFrame(frames[index + 2 + k]->Ok_0),
        ) + seq![RsPlan::FinishedDone]) =~= Seq::new(
            (6 - index) as nat,
            |k: int| RsPlan::SendFrame(frames[index + 1 + k]->Ok_0),
        ) + seq![RsPlan::FinishedDone]);
    } else {
        assert(events.drop_first() =~= Seq::<RsEvent>::empty());
        assert(rs_run(next, Seq::<RsEvent>::empty()) == (next, Seq::<RsPlan>::empty()));
        assert(seq![RsPlan::FinishedDone] + Seq::<RsPlan>::empty() =~= Seq::new(
            (6 - index) as nat,
            |k: int| RsPlan::SendFrame(frames[index + 1 + k]->Ok_0),
        ) + seq![RsPlan::FinishedDone]);
    }
}

/// An accepted action whose seven commands were all encoded sends each command once, in
/// joint order, and, once every send succeeds, records its timestamp as the last applied
/// action while the adapter stays enabled.
pub proof fn lemma_rs_action_sends_each_command_in_order(
    m: RsModel,
    timestamp_ns: u64,
    commands: Vec<Result<RsCanFrame, RsMitError>>,
)
    requires
        m.state == RsState::Enabled,
        m.last_action_ns matches Some(last) ==> timestamp_ns > last,
        commands@.len() == 7,
        forall|i: int| 0 <= i < 7 ==> (#[trigger] commands@[i]) is Ok,
    ensures
        ({
            let (last, plans) = rs_run(
                m,
                seq![
                    RsEvent::Begin(
                        RsOperation::ApplyAction { timestamp_ns, positions_finite: true, commands },
                    ),
                ] + rs_sent_events(7),
            );
            &&& last.state == RsState::Enabled
            &&& last.last_action_ns == Some(timestamp_ns)
            &&& last.pending == RsPending::Idle
            &&& plans == Seq::new(7, |i: int| RsPlan::SendFrame(commands@[i]->Ok_0)) + seq![
                RsPlan::FinishedDone,
            ]
        }),
{
    let frames = commands@;
    let events = seq![
        RsEvent::Begin(RsOperation::ApplyAction { timestamp_ns, positions_finite: true, commands }),
    ] + rs_sent_events(7);
    assert(frames[0] is Ok);
    let (next, first) = rs_step(m, events[0]);
    assert(first == RsPlan::SendFrame(frames[0]->Ok_0));
    assert(next.commands =~= frames.skip(1));
    assert(events.drop_first() =~= rs_sent_events(7));
    lemma_rs_command_sweep(next, 0, timestamp_ns, frames);
    assert(seq![RsPlan::SendFrame(frames[0]->Ok_0)] + (Seq::new(
        6,
        |k: int| RsPlan::SendFrame(frames[1 + k]->Ok_0),
    ) + seq![RsPlan::FinishedDone]) =~= Seq::new(7, |i: int| RsPlan::SendFrame(frames[i]->Ok_0))
        + seq![RsPlan::FinishedDone]);
}

/// Connecting disables all seven motors, in order, and nothing else; when every send
/// succeeds the adapter is connected and uncalibrated.
pub proof fn lemma_rs_connect_disables_every_motor(m: RsModel)
    requires
        m.state == RsState::Disconnected,
    ensures
        ({
            let (last, plans) = rs_run(m, seq![RsEvent::Begin(RsOperation::Connect)] + rs_sent_events(7));
            &&& last.state == RsState::ConnectedUncalibrated
            &&& last.pending == RsPending::Idle
            &&& plans == rs_disable_requests(0) + seq![RsPlan::FinishedDone]
        }),
{
    let events = seq![RsEvent::Begin(RsOperation::Connect)] + rs_sent_events(7);
    let next = rs_step(m, events[0]).0;
    assert(events.drop_first() =~= rs_sent_events(7));
    lemma_rs_sweep(next, 0, RsDisableGoal::Connect);
    assert(seq![RsPlan::SendLifecycle(1, false)] + (rs_disable_requests(1) + seq![
        RsPlan::FinishedDone,
    ]) =~= rs_disable_requests(0) + seq![RsPlan::FinishedDone]);
}

/// A safe stop of a connected adapter disables all seven motors, in order; when every send
/// succeeds the adapter is disabled, calibrated-disabled if a calibration was accepted.
pub proof fn lemma_rs_safe_stop_disables_every_motor(m: RsModel)
    requires
        m.state != RsState::Disconnected,
    ensures
        ({
            let (last, plans) = rs_run(m, seq![RsEvent::Begin(RsOperation::SafeStop)] + rs_sent_events(7));
            &&& last.state == rs_stopped_state(m.calibrated)
            &&& last.pending == RsPending::Idle
            &&& plans == rs_disable_requests(0) + seq![RsPlan::FinishedDone]
        }),
{
    let events = seq![RsEvent::Begin(RsOperation::SafeStop)] + rs_sent_events(7);
    let next = rs_step(m, events[0]).0;
    assert(events.drop_first() =~= rs_sent_events(7));
    lemma_rs_sweep(next, 0, RsDisableGoal::Stop);
    assert(seq![RsPlan::SendLifecycle(1, false)] + (rs_disable_requests(1) + seq![
        RsPlan::FinishedDone,
    ]) =~= rs_disable_requests(0) + seq![RsPlan::FinishedDone]);
}

/// A missing feedback frame fails closed: every motor is disabled, in order, the adapter
/// is left disabled, and the observation then fails with "missing motor feedback".
pub proof fn lemma_rs_missing_feedback_fails_closed(m: RsModel, index: usize)
    requires
        rs_consistent(m),
        m.pending == (RsPending::Observing { index }),
    ensures
        ({
            let (last, plans) = rs_run(m, seq![RsEvent::Received(None)] + rs_sent_events(7));
            &&& last.state == rs_stopped_state(m.calibrated)
            &&& last.state != RsState::Enabled
            &&& last.pending == RsPending::Idle
            &&& plans == rs_disable_requests(0) + seq![
                RsPlan::FinishedErr(RsMitError::Frame("missing motor feedback")),
            ]
        }),
{
    let events = seq![RsEvent::Received(None)] + rs_sent_events(7);
    let next = rs_step(m, events[0]).0;
    assert(events.drop_first() =~= rs_sent_events(7));
    lemma_rs_sweep(next, 0, RsDisableGoal::Fault);
    let end = RsPlan::FinishedErr(RsMitError::Frame("missing motor feedback"));
    assert(seq![RsPlan::SendLifecycle(1, false)] + (rs_disable_requests(1) + seq![end])
        =~= rs_disable_requests(0) + seq![end]);
}

/// A feedback frame that names the wrong motor or reaches the thermal stop fails closed:
/// every motor is disabled, in order, and the observation then fails with the mismatch
/// error.
pub proof fn lemma_rs_bad_feedback_fails_closed(m: RsModel, index: usize, frame: RsCanFrame)
    requires
        rs_consistent(m),
        m.pending == (RsPending::Observing { index }),
        m.limits_valid[index as int],
        !feedback_acceptable(frame, index + 1),
    ensures
        ({
            let (last, plans) = rs_run(m, seq![RsEvent::Received(Some(frame))] + rs_sent_events(7));
            &&& last.state == rs_stopped_state(m.calibrated)
            &&& last.pending == RsPending::Idle
            &&& plans == rs_disable_requests(0) + seq![
                RsPlan::FinishedErr(RsMitError::Frame("motor feedback mismatch or thermal limit")),
            ]
        }),
{
    let events = seq![RsEvent::Received(Some(frame))] + rs_sent_events(7);
    let next = rs_step(m, events[0]).0;
    assert(events.drop_first() =~= rs_sent_events(7));
    lemma_rs_sweep(next, 0, RsDisableGoal::Fault);
    let end = RsPlan::FinishedErr(RsMitError::Frame("motor feedback mismatch or thermal limit"));
    assert(seq![RsPlan::SendLifecycle(1, false)] + (rs_disable_requests(1) + seq![end])
        =~= rs_disable_requests(0) + seq![end]);
}

/// The B601-RS lifecycle and safety gate over an MIT transport `T`.
pub struct RsLifecycle<T> {
    transport: T,
    state: RsState,
    calibration_id: Option<String>,
    last_action_ns: Option<u64>,
    pending: RsPending,
    commands: VecDeque<Result<RsCanFrame, RsMitError>>,
    fault: Option<RsMitError>,
    received: Vec<RsCanFrame>,
    limits_valid: [bool; 7],
}

impl<T> RsLifecycle<T> {
    pub closed spec fn model(&self) -> RsModel {
        RsModel {
            state: self.state,
            calibrated: self.calibration_id is Some,
            last_action_ns: self.last_action_ns,
            pending: self.pending,
            commands: self.commands@,
            fault: self.fault,
            received: self.received@,
            limits_valid: self.limits_valid@,
        }
    }

    pub closed spec fn calibration_id_spec(&self) -> Option<Seq<char>> {
        match self.calibration_id {
            Some(id) => Some(id@),
            None => None,
        }
    }

    pub closed spec fn transport_spec(&self) -> T {
        self.transport
    }

    pub open spec fn wf(&self) -> bool {
        &&& rs_consistent(self.model())
        &&& (self.model().calibrated <==> self.calibration_id_spec() is Some)
    }

    pub fn new(transport: T) -> (adapter: Self)
        ensures
            adapter.wf(),
            adapter.transport_spec() == transport,
            adapter.model().state == RsState::Disconnected,
            !adapter.model().calibrated,
            adapter.model().last_action_ns is None,
            adapter.model().pending == RsPending::Idle,
    {
        RsLifecycle {
            transport,
            state: RsState::Disconnected,
            calibration_id: None,
            last_action_ns: None,
            pending: RsPending::Idle,
            commands: VecDeque::new(),
            fault: None,
            received: Vec::new(),
            limits_valid: [false; 7],
        }
    }

    pub fn state(&self) -> (state: RsState)
        ensures
            state == self.model().state,
    {
        self.state
    }

    /// The transport, for the owner to perform the requested work.
    pub fn transport_mut(&mut self) -> (transport: &mut T)
        ensures
            *transport == old(self).transport_spec(),
            final(self).transport_spec() == *final(transport),
            final(self).model() == old(self).model(),
            final(self).calibration_id_spec() == old(self).calibration_id_spec(),
    {
        &mut self.transport
    }

    pub fn into_transport(self) -> (transport: T)
        ensures
            transport == self.transport_spec(),
    {
        self.transport
    }

    /// Accepts a persisted calibration identity; only a connected, uncalibrated adapter
    /// accepts one, and never a blank identity.
    pub fn accept_calibration(&mut self, id: &str) -> (result: Result<(), RsMitError>)
        requires
            old(self).wf(),
        ensures
            final(self).wf(),
            final(self).transport_spec() == old(self).transport_spec(),
            old(self).model().state != RsState::ConnectedUncalibrated ==> result == Err::<
                (),
                RsMitError,
            >(RsMitError::Frame("calibration requires uncalibrated connected state")),
            old(self).model().state == RsState::ConnectedUncalibrated && is_blank(id@) ==> result
                == Err::<(), RsMitError>(RsMitError::Frame("calibration id is empty")),
            result is Err ==> final(self).model() == old(self).model()
                && final(self).calibration_id_spec() == old(self).calibration_id_spec(),
            result is Ok <==> old(self).model().state == RsState::ConnectedUncalibrated
                && !is_blank(id@),
            result is Ok ==> final(self).model() == (RsModel {
                state: RsState::ConnectedDisabled,
                calibrated: true,
                ..old(self).model()
            }) && final(self).calibration_id_spec() == Some(id@),
    {
        if self.state != RsState::ConnectedUncalibrated {
            return Err(RsMitError::Frame("calibration requires uncalibrated connected state"));
        }
        if is_blank_str(id) {
            return Err(RsMitError::Frame("calibration id is empty"));
        }
        self.calibration_id = Some(id.to_owned());
        self.state = RsState::ConnectedDisabled;
        Ok(())
    }

    /// Checks, before the action's commands are built, that an action stamped
    /// `timestamp_ns` may be applied.
    pub fn check_action(&self, timestamp_ns: u64, positions_finite: bool) -> (result: Result<
        (),
        RsMitError,
    >)
        ensures
            result == rs_action_check(self.model(), timestamp_ns, positions_finite),
    {
        if self.state != RsState::Enabled {
            return Err(RsMitError::Frame("action requires enabled state"));
        }
        if let Some(last) = self.last_action_ns {
            if timestamp_ns <= last {
                return Err(RsMitError::Frame("action timestamp is not monotonic"));
            }
        }
        if !positions_finite {
            return Err(RsMitError::Frame("action contains non-finite position"));
        }
        Ok(())
    }

    /// Drops the work of the operation in progress.
    fn clear(&mut self)
        ensures
            final(self).model() == (RsModel {
                pending: RsPending::Idle,
                commands: Seq::empty(),
                fault: None,
                received: Seq::empty(),
                ..old(self).model()
            }),
            final(self).transport == old(self).transport,
            final(self).calibration_id == old(self).calibration_id,
    {
        self.pending = RsPending::Idle;
        self.commands = VecDeque::new();
        self.fault = None;
        self.received = Vec::new();
    }

    /// Starts a fault stop that will report `error`.
    fn start_fault_stop(&mut self, error: RsMitError) -> (request: RsRequest)
        ensures
            ({
                let (model, plan) = fault_stop(old(self).model(), error);
                &&& final(self).model() == model
                &&& rs_request_is(request, plan)
            }),
            final(self).transport == old(self).transport,
            final(self).calibration_id == old(self).calibration_id,
    {
        self.clear();
        self.pending = RsPending::Disabling { index: 0, goal: RsDisableGoal::Fault };
        self.fault = Some(error);
        RsRequest::Send(rs_lifecycle_frame(1, false))
    }

    /// Takes the owner's report and says what to do next, following `rs_step`.
    pub fn step(&mut self, event: RsEvent) -> (request: RsRequest)
        requires
            old(self).wf(),
            event matches RsEvent::Begin(RsOperation::ApplyAction { commands, .. }) ==> commands@.len()
                == 7,
        ensures
            final(self).wf(),
            final(self).transport_spec() == old(self).transport_spec(),
            final(self).calibration_id_spec() == old(self).calibration_id_spec(),
            ({
                let (model, plan) = rs_step(old(self).model(), event);
                &&& final(self).model() == model
                &&& rs_request_is(request, plan)
            }),
    {
        proof {
            lemma_rs_step_keeps_consistent(self.model(), event);
        }
        let pending = self.pending;
        match event {
            RsEvent::Begin(RsOperation::Connect) => {
                self.clear();
                if self.state != RsState::Disconnected {
                    return RsRequest::Finished(Err(RsMitError::Frame("adapter is already connected")));
                }
                self.pending = RsPending::Disabling { index: 0, goal: RsDisableGoal::Connect };
                RsRequest::Send(rs_lifecycle_frame(1, false))
            },
            RsEvent::Begin(RsOperation::Enable { gains_valid }) => {
                self.clear();
                if self.state != RsState::ConnectedDisabled {
                    return RsRequest::Finished(
                        Err(RsMitError::Frame("enable requires calibrated disabled state")),
                    );
                }
                if !gains_valid {
                    return RsRequest::Finished(Err(RsMitError::Frame("configured MIT gains are invalid")));
                }
                self.pending = RsPending::Enabling { index: 0 };
                RsRequest::Send(rs_lifecycle_frame(1, true))
            },
            RsEvent::Begin(RsOperation::SafeStop) => {
                self.clear();
                if self.state == RsState::Disconnected {
                    return RsRequest::Finished(Ok(RsReply::Done));
                }
                self.pending = RsPending::Disabling { index: 0, goal: RsDisableGoal::Stop };
                RsRequest::Send(rs_lifecycle_frame(1, false))
            },
            RsEvent::Begin(RsOperation::ApplyAction { timestamp_ns, positions_finite, commands }) => {
                self.clear();
                if self.state != RsState::Enabled {
                    return RsRequest::Finished(Err(RsMitError::Frame("action requires enabled state")));
                }
                if let Some(last) = self.last_action_ns {
                    if timestamp_ns <= last {
                        return RsRequest::Finished(
                            Err(RsMitError::Frame("action timestamp is not monotonic")),
                        );
                    }
                }
                if !positions_finite {
                    return RsRequest::Finished(
                        Err(RsMitError::Frame("action contains non-finite position")),
                    );
                }
                let ghost all = commands@;
                let mut rest = commands;
                let mut queue: VecDeque<Result<RsCanFrame, RsMitError>> = VecDeque::new();
                while rest.len() > 0
                    invariant
                        rest@ + queue@ == all,
                    decreases rest@.len(),
                {
                    let ghost before = rest@;
                    match rest.pop() {
                        Some(c) => {
                            queue.push_front(c);
                            assert(rest@ + queue@ =~= all);
                        },
                        None => {},
                    }
                }
                assert(queue@ =~= all);
                match queue.pop_front() {
                    Some(Ok(frame)) => {
                        self.pending = RsPending::Commanding { index: 0, timestamp_ns };
                        self.commands = queue;
                        RsRequest::Send(frame)
                    },
                    Some(Err(e)) => RsRequest::Finished(Err(e)),
                    None => RsRequest::Finished(Err(RsMitError::Frame("action requires enabled state"))),
                }
            },
            RsEvent::Begin(RsOperation::Observe { limits_valid }) => {
                self.clear();
                if self.state != RsState::Enabled {
                    return RsRequest::Finished(
                        Err(RsMitError::Frame("observation requires enabled state")),
                    );
                }
                self.limits_valid = limits_valid;
                self.pending = RsPending::Observing { index: 0 };
                RsRequest::Receive
            },
            RsEvent::Sent => match pending {
                RsPending::Disabling { index, goal } => {
                    if index + 1 < 7 {
                        self.pending = RsPending::Disabling { index: index + 1, goal };
                        return RsRequest::Send(
                            rs_lifecycle_frame(B601_RS_MOTOR_IDS[index + 1], false),
                        );
                    }
                    let stopped = if self.calibration_id.is_some() {
                        RsState::ConnectedDisabled
                    } else {
                        RsState::ConnectedUncalibrated
                    };
                    match goal {
                        RsDisableGoal::Connect => {
                            self.clear();
                            self.state = RsState::ConnectedUncalibrated;
                            RsRequest::Finished(Ok(RsReply::Done))
                        },
                        RsDisableGoal::Stop => {
                            self.clear();
                            self.state = stopped;
                            RsRequest::Finished(Ok(RsReply::Done))
                        },
                        RsDisableGoal::Fault => {
                            let fault = self.fault.take();
                            self.clear();
                            self.state = stopped;
                            match fault {
                                Some(e) => RsRequest::Finished(Err(e)),
                                None => RsRequest::Finished(Err(RsMitError::Frame("transport event does not answer the pending request"))),
                            }
                        },
                    }
                },
                RsPending::Enabling { index } => {
                    if index + 1 < 7 {
                        self.pending = RsPending::Enabling { index: index + 1 };
                        return RsRequest::Send(rs_lifecycle_frame(B601_RS_MOTOR_IDS[index + 1], true));
                    }
                    self.clear();
                    self.state = RsState::Enabled;
                    RsRequest::Finished(Ok(RsReply::Done))
                },
                RsPending::Commanding { index, timestamp_ns } => {
                    if index + 1 < 7 {
                        match self.commands.pop_front() {
                            Some(Ok(frame)) => {
                                self.pending = RsPending::Commanding { index: index + 1, timestamp_ns };
                                RsRequest::Send(frame)
                            },
                            Some(Err(e)) => {
                                self.clear();
                                RsRequest::Finished(Err(e))
                            },
                            None => {
                                self.clear();
                                RsRequest::Finished(Err(RsMitError::Frame("transport event does not answer the pending request")))
                            },
                        }
                    } else {
                        self.clear();
                        self.last_action_ns = Some(timestamp_ns);
                        RsRequest::Finished(Ok(RsReply::Done))
                    }
                },
                _ => {
                    self.clear();
                    RsRequest::Finished(
                        Err(RsMitError::Frame("transport event does not answer the pending request")),
                    )
                },
            },
            RsEvent::Received(reply) => match pending {
                RsPending::Observing { index } => match reply {
                    None => self.start_fault_stop(RsMitError::Frame("missing motor feedback")),
                    Some(frame) => {
                        if !self.limits_valid[index] {
                            return self.start_fault_stop(RsMitError::Frame("feedback limits are invalid"));
                        }
                        let fields = decode_rs_mit_feedback_fields(frame.data());
                        if fields.motor_id as u16 != B601_RS_MOTOR_IDS[index]
                            || fields.temperature_decidegrees >= RS_THERMAL_LIMIT_DECIDEGREES {
                            return self.start_fault_stop(
                                RsMitError::Frame("motor feedback mismatch or thermal limit"),
                            );
                        }
                        self.received.push(frame);
                        if index + 1 < 7 {
                            self.pending = RsPending::Observing { index: index + 1 };
                            return RsRequest::Receive;
                        }
                        let frames: [RsCanFrame; 7] = [
                            self.received[0],
                            self.received[1],
                            self.received[2],
                            self.received[3],
                            self.received[4],
                            self.received[5],
                            self.received[6],
                        ];
                        assert(frames@ =~= self.received@);
                        self.clear();
                        RsRequest::Finished(Ok(RsReply::Feedback(frames)))
                    },
                },
                _ => {
                    self.clear();
                    RsRequest::Finished(
                        Err(RsMitError::Frame("transport event does not answer the pending request")),
                    )
                },
            },
            RsEvent::Failed(e) => match pending {
                RsPending::Idle => {
                    self.clear();
                    RsRequest::Finished(
                        Err(RsMitError::Frame("transport event does not answer the pending request")),
                    )
                },
                RsPending::Observing { .. } => self.start_fault_stop(e),
                RsPending::Disabling { goal: RsDisableGoal::Fault, .. } => {
                    let fault = self.fault.take();
                    self.clear();
                    match fault {
                        Some(f) => RsRequest::Finished(Err(f)),
                        None => RsRequest::Finished(Err(e)),
                    }
                },
                _ => {
                    self.clear();
                    RsRequest::Finished(Err(e))
                },
            },
        }
    }
}

} // verus!
