use dora_lerobot_hal::feetech::{checksum, instruction_packet, parse_status, FeetechError};
use dora_lerobot_hal::feetech_bus::{BusAction, BusEvent, BusReply, BusRequest, FeetechBus};
use std::collections::VecDeque;

#[derive(Default)]
struct FakeSerial {
    writes: Vec<Vec<u8>>,
    reads: VecDeque<Vec<u8>>,
}

/// Runs one bus transaction against the fake serial port.
fn run(bus: &mut FeetechBus<FakeSerial>, request: BusRequest) -> Result<BusReply, FeetechError> {
    let mut action = bus.step(BusEvent::Begin(request));
    loop {
        action = match action {
            BusAction::Write(bytes) => {
                bus.serial_mut().writes.push(bytes);
                bus.step(BusEvent::Written)
            }
            BusAction::Read(_) => {
                let chunk = bus.serial_mut().reads.pop_front().unwrap_or_default();
                bus.step(BusEvent::Read(chunk))
            }
            BusAction::Done(result) => return result,
        };
    }
}

fn bus(motors: &[(&str, u8)]) -> FeetechBus<FakeSerial> {
    FeetechBus::new(
        FakeSerial::default(),
        motors.iter().map(|(name, id)| (String::from(*name), *id)).collect(),
    )
    .unwrap()
}

fn status(id: u8, parameters: &[u8]) -> Vec<u8> {
    let mut packet = vec![0xff, 0xff, id, (parameters.len() + 2) as u8, 0];
    packet.extend_from_slice(parameters);
    let sum = packet[2..].iter().fold(0u8, |s, v| s.wrapping_add(*v));
    packet.push(!sum);
    packet
}

#[test]
fn torque_disable_uses_protocol_zero_write_packet() {
    let mut bus = bus(&[("shoulder_pan", 1)]);
    bus.serial_mut().reads.push_back(vec![0xff, 0xff, 1, 2, 0, 252]);

    run(&mut bus, BusRequest::SetTorque(false)).unwrap();

    assert_eq!(
        bus.serial_mut().writes.as_slice(),
        &[vec![0xff, 0xff, 1, 4, 3, 40, 0, 207]]
    );
}

#[test]
fn goal_positions_use_one_broadcast_sync_write() {
    let mut bus = bus(&[("shoulder_pan", 1), ("elbow_flex", 3)]);

    run(
        &mut bus,
        BusRequest::WriteGoal(vec![("shoulder_pan".into(), 100), ("elbow_flex".into(), 1024)]),
    )
    .unwrap();

    assert_eq!(
        bus.serial_mut().writes.as_slice(),
        &[vec![0xff, 0xff, 0xfe, 10, 131, 42, 2, 1, 100, 0, 3, 0, 4, 220]]
    );
}

#[test]
fn read_position_reassembles_fragmented_status_packet() {
    let mut bus = bus(&[("shoulder_pan", 1)]);
    bus.serial_mut()
        .reads
        .extend([vec![0xff, 0xff, 1], vec![4, 0, 52, 18, 180]]);

    assert_eq!(
        run(&mut bus, BusRequest::ReadPosition("shoulder_pan".into())).unwrap(),
        BusReply::Ticks(0x1234)
    );
    assert_eq!(
        bus.serial_mut().writes.as_slice(),
        &[vec![0xff, 0xff, 1, 4, 2, 56, 2, 190]]
    );
}

#[test]
fn checksum_is_the_inverted_byte_sum() {
    assert_eq!(checksum(&[1, 4, 3, 40, 0]), 207);
    assert_eq!(checksum(&[]), 0xff);
    assert_eq!(checksum(&[0xff, 1]), 0xff);
}

#[test]
fn instruction_packet_frames_header_length_and_checksum() {
    assert_eq!(instruction_packet(1, 3, &[40, 0]), vec![0xff, 0xff, 1, 4, 3, 40, 0, 207]);
    assert_eq!(instruction_packet(7, 1, &[]), vec![0xff, 0xff, 7, 2, 1, 245]);
}

#[test]
fn parse_status_returns_error_byte_and_parameters() {
    let (error, parameters) = parse_status(&[0xff, 0xff, 1, 4, 0, 52, 18, 180], 1).unwrap();
    assert_eq!(error, 0);
    assert_eq!(parameters, vec![52, 18]);
}

#[test]
fn parse_status_rejects_bad_header_id_length_and_checksum() {
    assert!(matches!(
        parse_status(&[0xff, 0xfe, 1, 2, 0, 252], 1),
        Err(FeetechError::Packet(_))
    ));
    assert!(matches!(
        parse_status(&[0xff, 0xff, 2, 2, 0, 251], 1),
        Err(FeetechError::Packet(_))
    ));
    assert!(matches!(
        parse_status(&[0xff, 0xff, 1, 3, 0, 252], 1),
        Err(FeetechError::Packet(_))
    ));
    assert!(matches!(
        parse_status(&[0xff, 0xff, 1, 2, 0, 253], 1),
        Err(FeetechError::Packet(_))
    ));
    assert!(matches!(parse_status(&[0xff, 0xff, 1], 1), Err(FeetechError::Packet(_))));
}

#[test]
fn parse_status_reports_a_servo_error_byte() {
    assert!(matches!(
        parse_status(&status(4, &[])[..0], 4),
        Err(FeetechError::Packet(_))
    ));
    let mut packet = vec![0xff, 0xff, 4, 2, 0x20];
    let sum = packet[2..].iter().fold(0u8, |s, v| s.wrapping_add(*v));
    packet.push(!sum);
    assert!(matches!(
        parse_status(&packet, 4),
        Err(FeetechError::ServoStatus { id: 4, error: 0x20 })
    ));
}

#[test]
fn bus_rejects_empty_and_duplicate_motor_tables() {
    assert!(matches!(
        FeetechBus::new(FakeSerial::default(), vec![]),
        Err(FeetechError::Packet("a bus needs at least one motor"))
    ));
    assert!(matches!(
        FeetechBus::new(FakeSerial::default(), vec![("a".into(), 1), ("a".into(), 2)]),
        Err(FeetechError::DuplicateMotor)
    ));
    assert!(matches!(
        FeetechBus::new(FakeSerial::default(), vec![("a".into(), 1), ("b".into(), 1)]),
        Err(FeetechError::DuplicateMotor)
    ));
}

#[test]
fn torque_writes_go_to_every_motor_in_name_order() {
    let mut bus = bus(&[("b", 2), ("c", 3), ("a", 1)]);
    for id in [1, 2, 3] {
        bus.serial_mut().reads.push_back(status(id, &[]));
    }
    run(&mut bus, BusRequest::SetTorque(true)).unwrap();
    let ids: Vec<u8> = bus.serial_mut().writes.iter().map(|p| p[2]).collect();
    assert_eq!(ids, vec![1, 2, 3]);
    assert!(bus.serial_mut().writes.iter().all(|p| p[6] == 1));
}

#[test]
fn torque_write_stops_at_the_first_missing_status() {
    let mut bus = bus(&[("a", 1), ("b", 2)]);
    bus.serial_mut().reads.push_back(status(1, &[]));
    assert!(matches!(
        run(&mut bus, BusRequest::SetTorque(false)),
        Err(FeetechError::Packet("serial read ended before a status packet"))
    ));
    assert_eq!(bus.serial_mut().writes.len(), 2);
}

#[test]
fn unknown_motors_are_reported_by_name() {
    let mut bus = bus(&[("a", 1)]);
    assert!(matches!(
        run(&mut bus, BusRequest::ReadPosition("z".into())),
        Err(FeetechError::UnknownMotor(name)) if name == "z"
    ));
    assert!(matches!(
        run(&mut bus, BusRequest::WriteGoal(vec![("a".into(), 1), ("q".into(), 2)])),
        Err(FeetechError::UnknownMotor(name)) if name == "q"
    ));
    assert!(bus.serial_mut().writes.is_empty());
    assert_eq!(bus.motor_id("a").unwrap(), 1);
}

#[test]
fn empty_goal_write_sends_nothing() {
    let mut bus = bus(&[("a", 1)]);
    assert_eq!(run(&mut bus, BusRequest::WriteGoal(vec![])).unwrap(), BusReply::Unit);
    assert!(bus.serial_mut().writes.is_empty());
}

#[test]
fn position_status_with_wrong_length_is_rejected() {
    let mut bus = bus(&[("a", 1)]);
    bus.serial_mut().reads.push_back(status(1, &[1, 2, 3]));
    assert!(matches!(
        run(&mut bus, BusRequest::ReadPosition("a".into())),
        Err(FeetechError::Packet("position status has unexpected data length"))
    ));
}

#[test]
fn events_that_answer_nothing_are_rejected() {
    let mut bus = bus(&[("a", 1)]);
    assert!(matches!(
        bus.step(BusEvent::Written),
        BusAction::Done(Err(FeetechError::Packet(_)))
    ));
    assert!(matches!(
        bus.step(BusEvent::Read(vec![1])),
        BusAction::Done(Err(FeetechError::Packet(_)))
    ));
}
