use dora_lerobot_hal::rs_adapter::{
    RsEvent, RsLifecycle, RsOperation, RsReply, RsRequest, RsState,
};
use dora_lerobot_hal::rs_mit::{encode_rs_mit_lifecycle, rs_mit_command_frame, RsCanFrame, RsMitError};
use std::collections::VecDeque;

#[derive(Default)]
struct Fake {
    writes: Vec<RsCanFrame>,
    reads: VecDeque<Option<RsCanFrame>>,
}

fn run(adapter: &mut RsLifecycle<Fake>, operation: RsOperation) -> Result<RsReply, RsMitError> {
    let mut request = adapter.step(RsEvent::Begin(operation));
    loop {
        request = match request {
            RsRequest::Send(frame) => {
                adapter.transport_mut().writes.push(frame);
                adapter.step(RsEvent::Sent)
            }
            RsRequest::Receive => {
                let frame = adapter.transport_mut().reads.pop_front().flatten();
                adapter.step(RsEvent::Received(frame))
            }
            RsRequest::Finished(result) => return result,
        };
    }
}

/// Commands as the owner encodes them: the position a bounded step away, zero velocity and
/// torque, the default gains.
fn commands(q: u32) -> Vec<Result<RsCanFrame, RsMitError>> {
    (1..=7u16).map(|id| rs_mit_command_frame(id, q, 0x7ff, 82, 410, 0x7ff)).collect()
}

fn feedback(id: u8, temperature_decidegrees: u16) -> RsCanFrame {
    let t = temperature_decidegrees.to_be_bytes();
    RsCanFrame::standard(0, [id, 0x80, 0x00, 0x80, 0x08, 0x00, t[0], t[1]])
}

fn enabled() -> RsLifecycle<Fake> {
    let mut adapter = RsLifecycle::new(Fake::default());
    run(&mut adapter, RsOperation::Connect).unwrap();
    adapter.accept_calibration("rs-v1").unwrap();
    run(&mut adapter, RsOperation::Enable { gains_valid: true }).unwrap();
    adapter
}

fn disable(id: u16) -> [u8; 8] {
    encode_rs_mit_lifecycle(id, false).unwrap().data()
}

#[test]
fn rs_adapter_requires_calibration_and_enable_before_action() {
    let mut adapter = RsLifecycle::new(Fake::default());
    assert_eq!(adapter.state(), RsState::Disconnected);
    run(&mut adapter, RsOperation::Connect).unwrap();
    assert_eq!(adapter.state(), RsState::ConnectedUncalibrated);
    let action = |timestamp_ns| RsOperation::ApplyAction {
        timestamp_ns,
        positions_finite: true,
        commands: commands(0x8000),
    };
    assert!(run(&mut adapter, action(1)).is_err());
    adapter.accept_calibration("rs-v1").unwrap();
    assert!(run(&mut adapter, action(2)).is_err());
}

#[test]
fn rs_adapter_clamps_relative_targets_and_disables_all_on_stop() {
    let mut adapter = enabled();
    run(
        &mut adapter,
        RsOperation::ApplyAction { timestamp_ns: 1, positions_finite: true, commands: commands(0x8105) },
    )
    .unwrap();
    {
        let frames = &adapter.transport_mut().writes;
        assert_eq!(frames[7].data(), encode_rs_mit_lifecycle(1, true).unwrap().data());
        assert_eq!(frames.len(), 21);
        assert_eq!(frames[14], rs_mit_command_frame(1, 0x8105, 0x7ff, 82, 410, 0x7ff).unwrap());
        assert_eq!(frames[20].arbitration_id(), 7);
    }
    run(&mut adapter, RsOperation::SafeStop).unwrap();
    assert_eq!(adapter.state(), RsState::ConnectedDisabled);
    assert!(adapter.transport_mut().writes.iter().any(|frame| frame.data() == disable(7)));
}

#[test]
fn rs_adapter_fails_closed_when_feedback_times_out() {
    let mut adapter = enabled();
    assert!(run(&mut adapter, RsOperation::Observe { limits_valid: [true; 7] }).is_err());
    assert_eq!(adapter.state(), RsState::ConnectedDisabled);
    assert!(adapter.transport_mut().writes.iter().any(|frame| frame.data() == disable(1)));
}

#[test]
fn rs_connect_disables_every_motor_in_order() {
    let mut adapter = RsLifecycle::new(Fake::default());
    run(&mut adapter, RsOperation::Connect).unwrap();
    let frames = &adapter.transport_mut().writes;
    let ids: Vec<u16> = frames.iter().map(|f| f.arbitration_id()).collect();
    assert_eq!(ids, vec![1, 2, 3, 4, 5, 6, 7]);
    assert!(frames.iter().all(|f| f.data()[7] == 0xfd));
    assert!(matches!(
        run(&mut adapter, RsOperation::Connect),
        Err(RsMitError::Frame("adapter is already connected"))
    ));
}

#[test]
fn rs_enable_needs_valid_gains_and_calibration() {
    let mut adapter = RsLifecycle::new(Fake::default());
    run(&mut adapter, RsOperation::Connect).unwrap();
    assert!(matches!(
        run(&mut adapter, RsOperation::Enable { gains_valid: true }),
        Err(RsMitError::Frame("enable requires calibrated disabled state"))
    ));
    assert!(matches!(
        adapter.accept_calibration(" \t"),
        Err(RsMitError::Frame("calibration id is empty"))
    ));
    adapter.accept_calibration("rs-v1").unwrap();
    assert!(matches!(
        run(&mut adapter, RsOperation::Enable { gains_valid: false }),
        Err(RsMitError::Frame("configured MIT gains are invalid"))
    ));
    assert_eq!(adapter.state(), RsState::ConnectedDisabled);
}

#[test]
fn rs_actions_need_increasing_timestamps_and_finite_positions() {
    let mut adapter = enabled();
    let action = |timestamp_ns, positions_finite| RsOperation::ApplyAction {
        timestamp_ns,
        positions_finite,
        commands: commands(0x8000),
    };
    run(&mut adapter, action(5, true)).unwrap();
    assert!(matches!(
        run(&mut adapter, action(5, true)),
        Err(RsMitError::Frame("action timestamp is not monotonic"))
    ));
    assert!(matches!(
        run(&mut adapter, action(6, false)),
        Err(RsMitError::Frame("action contains non-finite position"))
    ));
    let mut bad = commands(0x8000);
    bad[3] = Err(RsMitError::Frame("position out of range"));
    let sent_before = adapter.transport_mut().writes.len();
    assert!(matches!(
        run(&mut adapter, RsOperation::ApplyAction { timestamp_ns: 7, positions_finite: true, commands: bad }),
        Err(RsMitError::Frame("position out of range"))
    ));
    assert_eq!(adapter.transport_mut().writes.len(), sent_before + 3);
    run(&mut adapter, action(6, true)).unwrap();
}

#[test]
fn rs_observe_returns_every_motor_in_order() {
    let mut adapter = enabled();
    for id in 1..=7u8 {
        adapter.transport_mut().reads.push_back(Some(feedback(id, 300)));
    }
    match run(&mut adapter, RsOperation::Observe { limits_valid: [true; 7] }).unwrap() {
        RsReply::Feedback(frames) => {
            for (index, frame) in frames.iter().enumerate() {
                assert_eq!(frame.data()[0], index as u8 + 1);
            }
        }
        RsReply::Done => panic!("observation returned no feedback"),
    }
    assert_eq!(adapter.state(), RsState::Enabled);
}

#[test]
fn rs_observe_stops_on_hot_or_misaddressed_feedback() {
    let mut adapter = enabled();
    adapter.transport_mut().reads.push_back(Some(feedback(1, 800)));
    assert!(matches!(
        run(&mut adapter, RsOperation::Observe { limits_valid: [true; 7] }),
        Err(RsMitError::Frame("motor feedback mismatch or thermal limit"))
    ));
    assert_eq!(adapter.state(), RsState::ConnectedDisabled);

    let mut adapter = enabled();
    adapter.transport_mut().reads.push_back(Some(feedback(2, 300)));
    assert!(run(&mut adapter, RsOperation::Observe { limits_valid: [true; 7] }).is_err());
    assert_eq!(adapter.state(), RsState::ConnectedDisabled);

    let mut adapter = enabled();
    adapter.transport_mut().reads.push_back(Some(feedback(1, 300)));
    let mut limits = [true; 7];
    limits[1] = false;
    adapter.transport_mut().reads.push_back(Some(feedback(2, 300)));
    assert!(matches!(
        run(&mut adapter, RsOperation::Observe { limits_valid: limits }),
        Err(RsMitError::Frame("feedback limits are invalid"))
    ));
}

#[test]
fn rs_safe_stop_of_a_disconnected_adapter_sends_nothing() {
    let mut adapter = RsLifecycle::new(Fake::default());
    assert!(matches!(run(&mut adapter, RsOperation::SafeStop).unwrap(), RsReply::Done));
    assert!(adapter.transport_mut().writes.is_empty());
}

#[test]
fn rs_check_action_applies_the_action_rules_in_order() {
    let mut adapter = RsLifecycle::new(Fake::default());
    assert!(matches!(
        adapter.check_action(1, false),
        Err(RsMitError::Frame("action requires enabled state"))
    ));
    run(&mut adapter, RsOperation::Connect).unwrap();
    adapter.accept_calibration("rs-v1").unwrap();
    run(&mut adapter, RsOperation::Enable { gains_valid: true }).unwrap();
    assert!(adapter.check_action(1, true).is_ok());
    assert!(matches!(
        adapter.check_action(1, false),
        Err(RsMitError::Frame("action contains non-finite position"))
    ));
    run(
        &mut adapter,
        RsOperation::ApplyAction { timestamp_ns: 4, positions_finite: true, commands: commands(0x8000) },
    )
    .unwrap();
    assert!(matches!(
        adapter.check_action(4, false),
        Err(RsMitError::Frame("action timestamp is not monotonic"))
    ));
}
