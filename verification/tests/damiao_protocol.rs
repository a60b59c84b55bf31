use dora_lerobot_hal::damiao::{
    command_frame, decode_damiao_feedback_fields, encode_damiao_lifecycle, encode_damiao_mode,
    force_position_payload, is_damiao_mode_ack, position_velocity_payload, DamiaoCanFrame,
    DamiaoControlMode, DamiaoError, DamiaoStatus,
};
use dora_lerobot_hal::damiao_bridge::{encode_tx, DamiaoReceive, DamiaoSerialBus};
use std::collections::VecDeque;

#[derive(Default)]
struct FakeSerial {
    writes: Vec<Vec<u8>>,
    reads: VecDeque<Vec<u8>>,
}

/// Runs the bus's receive loop over the fake session, as the HAL owner does.
fn receive(bus: &mut DamiaoSerialBus<FakeSerial>) -> Option<DamiaoCanFrame> {
    if let Some(frame) = bus.next_frame() {
        return Some(frame);
    }
    loop {
        let bytes = bus.serial_mut().reads.pop_front().unwrap_or_default();
        match bus.accept_read(&bytes) {
            DamiaoReceive::Frame(frame) => return Some(frame),
            DamiaoReceive::NoBytes => return None,
            DamiaoReceive::NeedMore => {}
        }
    }
}

fn send(bus: &mut DamiaoSerialBus<FakeSerial>, frame: DamiaoCanFrame) {
    let bytes = bus.send_bytes(frame).to_vec();
    bus.serial_mut().writes.push(bytes);
}

#[test]
fn dm_serial_encapsulates_a_classic_can_command_in_the_documented_30_byte_frame() {
    let mut bus = DamiaoSerialBus::new(FakeSerial::default());

    send(&mut bus, DamiaoCanFrame::standard(0x07, [1, 2, 3, 4, 5, 6, 7, 8]));

    let serial = bus.into_serial();
    assert_eq!(
        serial.writes.as_slice(),
        &[vec![
            0x55, 0xaa, 0x1e, 0x03, 1, 0, 0, 0, 10, 0, 0, 0, 0, 7, 0, 0, 0, 0, 8, 0, 0, 1, 2, 3, 4,
            5, 6, 7, 8, 0,
        ]]
    );
}

#[test]
fn dm_serial_reassembles_a_fragmented_16_byte_feedback_frame() {
    let mut serial = FakeSerial::default();
    serial.reads.extend([
        vec![0x00, 0xaa, 0x11, 0x08, 0x17, 0x00, 0x00],
        vec![0x00, 9, 8, 7, 6, 5, 4, 3, 2, 0x55],
    ]);
    let mut bus = DamiaoSerialBus::new(serial);

    let frame = receive(&mut bus).unwrap();

    assert_eq!(frame.arbitration_id(), 0x17);
    assert_eq!(frame.data(), [9, 8, 7, 6, 5, 4, 3, 2]);
}

#[test]
fn dm_serial_discards_noise_and_invalid_envelopes_before_feedback() {
    let mut serial = FakeSerial::default();
    serial.reads.push_back(vec![
        0x12, 0xaa, 0x10, 0x08, 1, 0, 0, 0, 0, 0, 0, 0, 0, 0, 0, 0x55, 0xaa, 0x11, 0x08, 0x11, 0,
        0, 0, 1, 2, 3, 4, 5, 6, 7, 8, 0x55,
    ]);
    let mut bus = DamiaoSerialBus::new(serial);

    let frame = receive(&mut bus).unwrap();

    assert_eq!(frame.arbitration_id(), 0x11);
    assert_eq!(frame.data(), [1, 2, 3, 4, 5, 6, 7, 8]);
}

#[test]
fn dm_arm_position_velocity_command_uses_little_endian_float_payloads() {
    let frame = command_frame(
        0x03,
        position_velocity_payload(1.5f32.to_bits(), 2.25f32.to_bits()),
    )
    .unwrap();

    assert_eq!(frame.arbitration_id(), 3);
    assert_eq!(frame.data(), [0, 0, 0xc0, 0x3f, 0, 0, 0x10, 0x40]);
}

#[test]
fn dm_gripper_force_position_command_scales_and_caps_velocity_and_torque() {
    let velocity = (200.0f32.clamp(0.0, 100.0) * 100.0) as u16;
    let torque = (2.0f32.clamp(0.0, 1.0) * 10_000.0) as u16;
    let frame = command_frame(
        0x07,
        force_position_payload((-0.5f32).to_bits(), velocity, torque),
    )
    .unwrap();

    assert_eq!(frame.data(), [0, 0, 0, 0xbf, 0x10, 0x27, 0x10, 0x27]);
}

#[test]
fn dm_lifecycle_and_mode_frames_use_the_vendor_protocol_constants() {
    assert_eq!(
        encode_damiao_lifecycle(1, DamiaoStatus::Disable)
            .unwrap()
            .data(),
        [0xff, 0xff, 0xff, 0xff, 0xff, 0xff, 0xff, 0xfd]
    );
    assert_eq!(
        encode_damiao_mode(7, DamiaoControlMode::ForcePosition)
            .unwrap()
            .data(),
        [7, 0, 0x55, 10, 4, 0, 0, 0]
    );
}

#[test]
fn dm_feedback_decodes_status_position_velocity_torque_and_temperatures() {
    let fields = decode_damiao_feedback_fields([0xa3, 0x8f, 0xff, 0x80, 0x08, 0x00, 91, 63]);

    assert_eq!(fields.motor_id, 3);
    assert_eq!(fields.status_code, 0x0a);
    assert_eq!(fields.position, 0x8fff);
    assert_eq!(fields.velocity, 0x800);
    assert_eq!(fields.torque, 0x800);
    assert_eq!(fields.mos_temperature_c, 91);
    assert_eq!(fields.rotor_temperature_c, 63);
    let position_rad = fields.position as f32 * 25.0 / 65535.0 - 12.5;
    assert!((position_rad - 1.5624).abs() < 0.001);
}

#[test]
fn damiao_lifecycle_status_codes() {
    let last = |status| encode_damiao_lifecycle(0x7ff, status).unwrap().data()[7];
    assert_eq!(last(DamiaoStatus::Enable), 0xfc);
    assert_eq!(last(DamiaoStatus::Disable), 0xfd);
    assert_eq!(last(DamiaoStatus::SetZero), 0xfe);
    assert_eq!(last(DamiaoStatus::ClearFault), 0xfb);
}

#[test]
fn damiao_frames_refuse_identifiers_beyond_eleven_bits() {
    assert!(matches!(
        encode_damiao_lifecycle(0x800, DamiaoStatus::Enable),
        Err(DamiaoError::Frame("motor CAN ID exceeds 11-bit standard range"))
    ));
    assert!(matches!(
        encode_damiao_mode(0x800, DamiaoControlMode::Mit),
        Err(DamiaoError::Frame(_))
    ));
    assert!(command_frame(0x7ff, [0; 8]).is_ok());
}

#[test]
fn damiao_mode_frame_splits_the_motor_id_little_endian() {
    assert_eq!(
        encode_damiao_mode(0x123, DamiaoControlMode::Velocity).unwrap().data(),
        [0x23, 0x01, 0x55, 10, 3, 0, 0, 0]
    );
}

#[test]
fn damiao_mode_ack_accepts_only_the_echo_from_the_reply_id() {
    let echo = encode_damiao_mode(7, DamiaoControlMode::ForcePosition).unwrap().data();
    assert!(is_damiao_mode_ack(
        DamiaoCanFrame::standard(0x17, echo),
        7,
        DamiaoControlMode::ForcePosition
    ));
    assert!(!is_damiao_mode_ack(
        DamiaoCanFrame::standard(0x07, echo),
        7,
        DamiaoControlMode::ForcePosition
    ));
    assert!(!is_damiao_mode_ack(
        DamiaoCanFrame::standard(0x17, echo),
        7,
        DamiaoControlMode::PositionVelocity
    ));
    let mut wrong = echo;
    wrong[6] = 1;
    assert!(!is_damiao_mode_ack(
        DamiaoCanFrame::standard(0x17, wrong),
        7,
        DamiaoControlMode::ForcePosition
    ));
}

#[test]
fn damiao_force_position_payload_keeps_values_under_the_cap() {
    assert_eq!(
        force_position_payload(0, 250, 9_999),
        [0, 0, 0, 0, 0xfa, 0x00, 0x0f, 0x27]
    );
}

#[test]
fn damiao_tx_envelope_carries_the_high_identifier_byte() {
    let out = encode_tx(DamiaoCanFrame::standard(0x7ff, [0; 8]));
    assert_eq!(out[13], 0xff);
    assert_eq!(out[14], 0x07);
    assert_eq!(out.len(), 30);
}

#[test]
fn damiao_receiver_keeps_a_partial_envelope_until_it_completes() {
    let mut bus = DamiaoSerialBus::new(FakeSerial::default());
    assert!(matches!(
        bus.accept_read(&[0xaa, 0x11, 0x08, 0x05, 0x00]),
        DamiaoReceive::NeedMore
    ));
    assert!(matches!(bus.accept_read(&[]), DamiaoReceive::NoBytes));
    match bus.accept_read(&[0, 0, 1, 2, 3, 4, 5, 6, 7, 8, 0x55, 0xaa]) {
        DamiaoReceive::Frame(frame) => {
            assert_eq!(frame.arbitration_id(), 5);
            assert_eq!(frame.data(), [1, 2, 3, 4, 5, 6, 7, 8]);
        }
        _ => panic!("expected a frame"),
    }
    assert!(bus.next_frame().is_none());
}

#[test]
fn damiao_receiver_rejects_extended_remote_and_oversized_identifiers() {
    let mut bus = DamiaoSerialBus::new(FakeSerial::default());
    // extended frame flag, then an identifier of 0x800, then a valid frame
    let mut bytes = vec![0xaa, 0x11, 0x48, 1, 0, 0, 0, 0, 0, 0, 0, 0, 0, 0, 0, 0x55];
    bytes.extend([0xaa, 0x11, 0x08, 0x00, 0x08, 0, 0, 0, 0, 0, 0, 0, 0, 0, 0, 0x55]);
    bytes.extend([0xaa, 0x11, 0x08, 0x02, 0x00, 0, 0, 9, 9, 9, 9, 9, 9, 9, 9, 0x55]);
    match bus.accept_read(&bytes) {
        DamiaoReceive::Frame(frame) => {
            assert_eq!(frame.arbitration_id(), 2);
            assert_eq!(frame.data(), [9; 8]);
        }
        _ => panic!("expected a frame"),
    }
}

#[test]
fn damiao_two_envelopes_in_one_read_come_out_one_after_the_other() {
    let mut bus = DamiaoSerialBus::new(FakeSerial::default());
    let mut chunk = vec![0xaa, 0x11, 0x08, 0x01, 0, 0, 0, 1, 1, 1, 1, 1, 1, 1, 1, 0x55];
    chunk.extend([0xaa, 0x11, 0x08, 0x02, 0, 0, 0, 2, 2, 2, 2, 2, 2, 2, 2, 0x55]);
    bus.serial_mut().reads.push_back(chunk);
    let first = receive(&mut bus).unwrap();
    assert_eq!((first.arbitration_id(), first.data()), (1, [1; 8]));
    assert!(bus.serial_mut().reads.is_empty());
    let second = receive(&mut bus).unwrap();
    assert_eq!((second.arbitration_id(), second.data()), (2, [2; 8]));
    assert!(receive(&mut bus).is_none());
}
