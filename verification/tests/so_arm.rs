use dora_lerobot_hal::feetech::{FeetechError, instruction_packet};
use dora_lerobot_hal::feetech_bus::{BusAction, BusEvent, BusReply, BusRequest, FeetechBus};
use dora_lerobot_hal::so_arm::{
    check_so_arm_config, JointCalibration, SoArmAction, SoArmError, SoArmEvent, SoArmLifecycle,
    SoArmOperation, SoArmReply, SoArmState, SO_ARM_JOINTS,
};
use std::collections::VecDeque;

#[derive(Default)]
struct FakeSerial {
    writes: Vec<Vec<u8>>,
    reads: VecDeque<Vec<u8>>,
}

fn status(id: u8, parameters: &[u8]) -> Vec<u8> {
    let mut packet = vec![0xff, 0xff, id, (parameters.len() + 2) as u8, 0];
    packet.extend_from_slice(parameters);
    let sum = packet[2..].iter().fold(0u8, |s, v| s.wrapping_add(*v));
    packet.push(!sum);
    packet
}

fn transaction(bus: &mut FeetechBus<FakeSerial>, request: BusRequest) -> Result<BusReply, FeetechError> {
    let mut action = bus.step(BusEvent::Begin(request));
    loop {
        action = match action {
            BusAction::Write(bytes) => {
                bus.serial_mut().writes.push(bytes);
                bus.step(BusEvent::Written)
            }
            BusAction::Read(_) => {
                let chunk = bus.serial_mut().reads.pop_front().unwrap_or_default();
                bus.step(BusEvent::Read(chunk))
            }
            BusAction::Done(result) => return result,
        };
    }
}

fn run(
    adapter: &mut SoArmLifecycle<FakeSerial>,
    operation: SoArmOperation,
) -> Result<SoArmReply, SoArmError> {
    let mut action = adapter.step(SoArmEvent::Begin(operation));
    loop {
        action = match action {
            SoArmAction::Bus(request) => {
                let outcome = transaction(adapter.bus_mut(), request);
                adapter.step(SoArmEvent::BusDone(outcome))
            }
            SoArmAction::Finished(result) => return result,
        };
    }
}

fn configured_serial() -> FakeSerial {
    let mut serial = FakeSerial::default();
    // Connect disables torque. Enable reads the current position, then enables torque.
    for id in [3, 6, 2, 1, 4, 5] {
        serial.reads.push_back(status(id, &[]));
    }
    for id in [1, 2, 3, 4, 5, 6] {
        serial.reads.push_back(status(id, &2048u16.to_le_bytes()));
    }
    for _ in 0..2 {
        for id in [3, 6, 2, 1, 4, 5] {
            serial.reads.push_back(status(id, &[]));
        }
    }
    serial
}

fn adapter(serial: FakeSerial) -> SoArmLifecycle<FakeSerial> {
    let bus = FeetechBus::new(
        serial,
        SO_ARM_JOINTS
            .iter()
            .enumerate()
            .map(|(index, name)| (String::from(*name), (index + 1) as u8))
            .collect(),
    )
    .unwrap();
    SoArmLifecycle::new(bus, [JointCalibration::new(2048, 1); 6])
}

#[test]
fn adapter_is_disabled_until_calibrated_and_explicitly_enabled() {
    let mut adapter = adapter(configured_serial());

    run(&mut adapter, SoArmOperation::Connect).unwrap();
    assert_eq!(adapter.state(), SoArmState::ConnectedUncalibrated);
    assert!(matches!(
        run(&mut adapter, SoArmOperation::Enable { timestamp_ns: 1_000_000_000 }),
        Err(SoArmError::InvalidState { .. })
    ));

    adapter.accept_calibration("so-arm-test-profile-v1").unwrap();
    assert_eq!(adapter.calibration_id(), Some("so-arm-test-profile-v1"));
    assert_eq!(
        run(&mut adapter, SoArmOperation::Enable { timestamp_ns: 1_000_000_000 }).unwrap(),
        SoArmReply::Pose([2048; 6])
    );
    assert_eq!(adapter.state(), SoArmState::Enabled);
}

#[test]
fn adapter_rate_limits_action_and_safe_stop_disables_torque() {
    let mut adapter = adapter(configured_serial());

    run(&mut adapter, SoArmOperation::Connect).unwrap();
    adapter.accept_calibration("so-arm-test-profile-v1").unwrap();
    run(&mut adapter, SoArmOperation::Enable { timestamp_ns: 1_000_000_000 }).unwrap();
    // 0.1 rad is 65 ticks from the calibrated zero.
    run(
        &mut adapter,
        SoArmOperation::ApplyAction { timestamp_ns: 1_100_000_000, offsets: [65; 6] },
    )
    .unwrap();
    run(&mut adapter, SoArmOperation::SafeStop).unwrap();
    assert_eq!(adapter.state(), SoArmState::ConnectedDisabled);

    let bus = adapter.into_bus();
    let mut bus = bus;
    let writes = &bus.serial_mut().writes;
    let goal: Vec<&Vec<u8>> = writes.iter().filter(|packet| packet[4] == 0x83).collect();
    assert_eq!(goal.len(), 1);
    let mut expected_parameters = vec![42, 2];
    for id in 1..=6u8 {
        expected_parameters.extend_from_slice(&[id, 0x41, 0x08]);
    }
    assert_eq!(goal[0], &instruction_packet(0xfe, 0x83, &expected_parameters));
    let torque_disables = writes
        .iter()
        .filter(|packet| packet[4] == 0x03 && packet[5] == 40 && packet[6] == 0)
        .count();
    assert_eq!(torque_disables, 12);
}

#[test]
fn actions_need_enabled_torque_and_increasing_timestamps() {
    let mut adapter = adapter(configured_serial());
    assert!(matches!(
        run(&mut adapter, SoArmOperation::ApplyAction { timestamp_ns: 5, offsets: [0; 6] }),
        Err(SoArmError::InvalidState { operation: "apply action", state: SoArmState::Disconnected })
    ));
    run(&mut adapter, SoArmOperation::Connect).unwrap();
    adapter.accept_calibration("profile").unwrap();
    assert!(matches!(
        run(&mut adapter, SoArmOperation::Enable { timestamp_ns: 0 }),
        Err(SoArmError::InvalidTimestamp { timestamp_ns: 0 })
    ));
    run(&mut adapter, SoArmOperation::Enable { timestamp_ns: 10 }).unwrap();
    assert!(matches!(
        run(&mut adapter, SoArmOperation::ApplyAction { timestamp_ns: 10, offsets: [0; 6] }),
        Err(SoArmError::InvalidTimestamp { timestamp_ns: 10 })
    ));
    assert!(matches!(adapter.check_action(9), Err(SoArmError::InvalidTimestamp { timestamp_ns: 9 })));
    assert_eq!(adapter.check_action(11).unwrap(), 10);
}

#[test]
fn goals_outside_one_turn_name_the_first_joint() {
    let mut adapter = adapter(configured_serial());
    run(&mut adapter, SoArmOperation::Connect).unwrap();
    adapter.accept_calibration("profile").unwrap();
    run(&mut adapter, SoArmOperation::Enable { timestamp_ns: 10 }).unwrap();
    assert!(matches!(
        run(
            &mut adapter,
            SoArmOperation::ApplyAction { timestamp_ns: 20, offsets: [0, 0, 2048, -2049, 0, 0] },
        ),
        Err(SoArmError::CalibrationRange { joint: "elbow_flex" })
    ));
}

#[test]
fn calibration_needs_a_connected_uncalibrated_arm_and_a_name() {
    let mut adapter = adapter(configured_serial());
    assert!(matches!(
        adapter.accept_calibration("profile"),
        Err(SoArmError::InvalidState { operation: "accept calibration", .. })
    ));
    run(&mut adapter, SoArmOperation::Connect).unwrap();
    assert!(matches!(
        adapter.accept_calibration("  "),
        Err(SoArmError::InvalidConfiguration("calibration id is empty"))
    ));
    assert_eq!(adapter.calibration_id(), None);
}

#[test]
fn observe_reads_every_joint_in_order() {
    let mut serial = FakeSerial::default();
    for id in [3, 6, 2, 1, 4, 5] {
        serial.reads.push_back(status(id, &[]));
    }
    for id in 1..=6u8 {
        serial.reads.push_back(status(id, &(1000 + id as u16).to_le_bytes()));
    }
    let mut adapter = adapter(serial);
    run(&mut adapter, SoArmOperation::Connect).unwrap();
    assert_eq!(
        run(&mut adapter, SoArmOperation::Observe).unwrap(),
        SoArmReply::Pose([1001, 1002, 1003, 1004, 1005, 1006])
    );
}

#[test]
fn disconnect_disables_torque_and_leaves_the_arm_disconnected() {
    let mut serial = FakeSerial::default();
    for _ in 0..2 {
        for id in [3, 6, 2, 1, 4, 5] {
            serial.reads.push_back(status(id, &[]));
        }
    }
    let mut adapter = adapter(serial);
    run(&mut adapter, SoArmOperation::Connect).unwrap();
    run(&mut adapter, SoArmOperation::Disconnect).unwrap();
    assert_eq!(adapter.state(), SoArmState::Disconnected);
    assert_eq!(run(&mut adapter, SoArmOperation::SafeStop).unwrap(), SoArmReply::Done);
}

#[test]
fn a_failed_bus_transaction_keeps_the_state() {
    let mut adapter = adapter(FakeSerial::default());
    assert!(matches!(
        run(&mut adapter, SoArmOperation::Connect),
        Err(SoArmError::Feetech(_))
    ));
    assert_eq!(adapter.state(), SoArmState::Disconnected);
}

#[test]
fn tick_arithmetic_round_trips_within_half_a_turn() {
    let forward = JointCalibration::new(2048, 1);
    let reverse = JointCalibration::new(100, -1);
    assert_eq!(forward.tick_for_offset(65), Some(2113));
    assert_eq!(reverse.tick_for_offset(50), Some(50));
    assert_eq!(reverse.tick_for_offset(101), None);
    assert_eq!(forward.tick_for_offset(2048), None);
    assert_eq!(forward.tick_for_offset(i32::MIN), None);
    assert_eq!(forward.offset_of_ticks(2113), 65);
    assert_eq!(reverse.offset_of_ticks(4000), -196);
    assert_eq!(JointCalibration::new(4000, 1).offset_of_ticks(10), 106);
    assert!(forward.validate());
    assert!(!JointCalibration::new(4096, 1).validate());
    assert!(!JointCalibration::new(0, 2).validate());
}

#[test]
fn configurations_are_checked_in_order() {
    let good = [JointCalibration::new(2048, 1); 6];
    assert!(check_so_arm_config("so-arm-a", true, &good).is_ok());
    assert!(matches!(
        check_so_arm_config(" ", false, &good),
        Err(SoArmError::InvalidConfiguration("robot id is empty"))
    ));
    assert!(matches!(
        check_so_arm_config("so-arm-a", false, &good),
        Err(SoArmError::InvalidConfiguration("invalid joint limit"))
    ));
    let mut bad = good;
    bad[5] = JointCalibration::new(2048, 0);
    assert!(matches!(
        check_so_arm_config("so-arm-a", true, &bad),
        Err(SoArmError::InvalidConfiguration("invalid joint calibration"))
    ));
}
