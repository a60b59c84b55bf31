use dora_lerobot_hal::damiao::{encode_damiao_mode, DamiaoCanFrame, DamiaoControlMode, DamiaoError};
use dora_lerobot_hal::dm_adapter::{DmAdapter, DmEvent, DmOperation, DmRequest, DmState};
use std::collections::VecDeque;

#[derive(Default)]
struct FakeTransport {
    sent: Vec<DamiaoCanFrame>,
    replies: VecDeque<DamiaoCanFrame>,
    fail_send_at: Option<usize>,
}

/// Performs the transport work the adapter asks for until the operation finishes.
fn run(adapter: &mut DmAdapter<FakeTransport>, operation: DmOperation) -> Result<(), DamiaoError> {
    let mut request = adapter.step(DmEvent::Begin(operation));
    loop {
        request = match request {
            DmRequest::Send(frame) => {
                let transport = adapter.transport_mut();
                if transport.fail_send_at == Some(transport.sent.len()) {
                    adapter.step(DmEvent::Failed(DamiaoError::Transport("unplugged".into())))
                } else {
                    transport.sent.push(frame);
                    adapter.step(DmEvent::Sent)
                }
            }
            DmRequest::Receive => {
                let reply = adapter.transport_mut().replies.pop_front();
                adapter.step(DmEvent::Received(reply))
            }
            DmRequest::Finished(result) => return result,
        };
    }
}

fn mode_ack(id: u16) -> DamiaoCanFrame {
    let mode = if id == 7 {
        DamiaoControlMode::ForcePosition
    } else {
        DamiaoControlMode::PositionVelocity
    };
    DamiaoCanFrame::standard(id + 0x10, encode_damiao_mode(id, mode).unwrap().data())
}

#[test]
fn dm_adapter_disables_every_motor_on_connect_and_safe_stop() {
    let mut adapter = DmAdapter::new(FakeTransport::default());

    run(&mut adapter, DmOperation::Connect).unwrap();
    assert_eq!(adapter.state(), DmState::ConnectedUncalibrated);
    adapter.accept_calibration("b601-dm-v1").unwrap();
    run(&mut adapter, DmOperation::SafeStop).unwrap();

    assert_eq!(adapter.state(), DmState::ConnectedDisabled);
    let ids: Vec<_> = adapter
        .into_transport()
        .sent
        .iter()
        .filter(|frame| frame.data()[7] == 0xfd)
        .map(|frame| frame.arbitration_id())
        .collect();
    assert_eq!(ids, vec![1, 2, 3, 4, 5, 6, 7, 1, 2, 3, 4, 5, 6, 7]);
}

#[test]
fn dm_adapter_enables_after_every_mode_is_acknowledged() {
    let mut transport = FakeTransport::default();
    transport.replies.extend((1..=7).map(mode_ack));
    let mut adapter = DmAdapter::new(transport);
    run(&mut adapter, DmOperation::Connect).unwrap();
    adapter.accept_calibration("b601-dm-v1").unwrap();

    run(&mut adapter, DmOperation::Enable).unwrap();

    assert_eq!(adapter.state(), DmState::Enabled);
    let sent = adapter.into_transport().sent;
    let modes: Vec<_> = sent[7..14].iter().map(|frame| frame.data()[4]).collect();
    assert_eq!(modes, vec![2, 2, 2, 2, 2, 2, 4]);
    let enables: Vec<_> = sent[14..]
        .iter()
        .map(|frame| (frame.arbitration_id(), frame.data()[7]))
        .collect();
    assert_eq!(enables, (1..=7).map(|id| (id, 0xfc)).collect::<Vec<_>>());
}

#[test]
fn dm_adapter_disables_everything_when_an_acknowledgement_is_missing() {
    let mut transport = FakeTransport::default();
    transport.replies.extend((1..=3).map(mode_ack));
    let mut adapter = DmAdapter::new(transport);
    run(&mut adapter, DmOperation::Connect).unwrap();
    adapter.accept_calibration("b601-dm-v1").unwrap();

    let result = run(&mut adapter, DmOperation::Enable);

    assert!(matches!(
        result,
        Err(DamiaoError::Frame("control mode acknowledgement missing or mismatched"))
    ));
    assert_eq!(adapter.state(), DmState::ConnectedDisabled);
    let sent = adapter.into_transport().sent;
    assert!(sent.iter().all(|frame| frame.data()[7] != 0xfc));
    let tail: Vec<_> = sent[sent.len() - 7..]
        .iter()
        .map(|frame| (frame.arbitration_id(), frame.data()[7]))
        .collect();
    assert_eq!(tail, (1..=7).map(|id| (id, 0xfd)).collect::<Vec<_>>());
}

#[test]
fn dm_adapter_requires_calibration_before_enable() {
    let mut adapter = DmAdapter::new(FakeTransport::default());
    assert!(matches!(
        run(&mut adapter, DmOperation::Enable),
        Err(DamiaoError::Frame("enable requires calibrated disabled state"))
    ));
    run(&mut adapter, DmOperation::Connect).unwrap();
    assert!(matches!(
        run(&mut adapter, DmOperation::Connect),
        Err(DamiaoError::Frame("adapter is already connected"))
    ));
    assert!(matches!(
        run(&mut adapter, DmOperation::Enable),
        Err(DamiaoError::Frame("enable requires calibrated disabled state"))
    ));
    assert!(matches!(
        adapter.accept_calibration(" \t"),
        Err(DamiaoError::Frame("calibration id is empty"))
    ));
    assert_eq!(adapter.state(), DmState::ConnectedUncalibrated);
    adapter.accept_calibration("b601-dm-v1").unwrap();
    assert!(matches!(
        adapter.accept_calibration("again"),
        Err(DamiaoError::Frame("calibration requires uncalibrated connected state"))
    ));
}

#[test]
fn dm_adapter_keeps_its_state_when_a_send_fails() {
    let mut transport = FakeTransport::default();
    transport.fail_send_at = Some(3);
    let mut adapter = DmAdapter::new(transport);
    assert!(matches!(
        run(&mut adapter, DmOperation::Connect),
        Err(DamiaoError::Transport(_))
    ));
    assert_eq!(adapter.state(), DmState::Disconnected);
    assert!(matches!(
        adapter.step(DmEvent::Sent),
        DmRequest::Finished(Err(DamiaoError::Frame(
            "transport event does not answer the pending request"
        )))
    ));
}

#[test]
fn dm_safe_stop_of_a_disconnected_adapter_sends_nothing() {
    let mut adapter = DmAdapter::new(FakeTransport::default());
    run(&mut adapter, DmOperation::SafeStop).unwrap();
    assert_eq!(adapter.state(), DmState::Disconnected);
    assert!(adapter.into_transport().sent.is_empty());
}
