use dora_lerobot_hal::rs_mit::{
    decode_rs_mit_feedback_fields, encode_rs_mit_lifecycle, rs_frame, rs_mit_command_frame,
    RsCanFrame, RsMitError,
};

/// Quantizes as the RS driver does before packing.
fn to_uint(value: f32, min: f32, max: f32, bits: u8) -> u32 {
    let bounded = value.clamp(min, max);
    (((bounded - min) / (max - min)) * ((1_u32 << bits) - 1) as f32) as u32
}

#[test]
fn rs_mit_command_uses_documented_packed_bit_layout() {
    let frame = rs_mit_command_frame(
        3,
        to_uint(0.0, -12.57, 12.57, 16),
        to_uint(0.0, -33.0, 33.0, 12),
        to_uint(250.0, 0.0, 500.0, 12),
        to_uint(2.5, 0.0, 5.0, 12),
        to_uint(0.0, -14.0, 14.0, 12),
    )
    .unwrap();
    assert_eq!(frame.arbitration_id(), 3);
    assert_eq!(
        frame.data(),
        [0x7f, 0xff, 0x7f, 0xf7, 0xff, 0x7f, 0xf7, 0xff]
    );
}

#[test]
fn rs_mit_lifecycle_uses_vendor_enable_and_disable_frames() {
    assert_eq!(
        encode_rs_mit_lifecycle(1, true).unwrap().data(),
        [0xff, 0xff, 0xff, 0xff, 0xff, 0xff, 0xff, 0xfc]
    );
    assert_eq!(
        encode_rs_mit_lifecycle(1, false).unwrap().data(),
        [0xff, 0xff, 0xff, 0xff, 0xff, 0xff, 0xff, 0xfd]
    );
}

#[test]
fn rs_mit_feedback_decodes_vendor_layout_and_temperature() {
    let fields = decode_rs_mit_feedback_fields([3, 0x7f, 0xff, 0x7f, 0xf7, 0xff, 0x02, 0x58]);
    assert_eq!(fields.motor_id, 3);
    assert_eq!(fields.q, 0x7fff);
    assert_eq!(fields.dq, 0x7ff);
    assert_eq!(fields.tau, 0x7ff);
    assert_eq!(fields.temperature_decidegrees, 600);
    assert_eq!(f32::from(fields.temperature_decidegrees) / 10.0, 60.0);
}

#[test]
fn rs_mit_command_extremes_pack_every_field() {
    let frame = rs_mit_command_frame(0x7ff, 0xffff, 0xfff, 0xfff, 0xfff, 0xfff).unwrap();
    assert_eq!(frame.data(), [0xff; 8]);
    let frame = rs_mit_command_frame(5, 0x1234, 0x567, 0x89a, 0xbcd, 0xef0).unwrap();
    assert_eq!(frame.data(), [0x12, 0x34, 0x56, 0x78, 0x9a, 0xbc, 0xde, 0xf0]);
}

#[test]
fn rs_frames_refuse_identifiers_beyond_eleven_bits() {
    assert!(matches!(
        encode_rs_mit_lifecycle(0x800, true),
        Err(RsMitError::Frame("motor CAN ID exceeds 11-bit standard range"))
    ));
    assert!(rs_mit_command_frame(0x800, 0, 0, 0, 0, 0).is_err());
    assert!(rs_frame(0x7ff, [1; 8]).is_ok());
}

#[test]
fn rs_feedback_fields_split_the_shared_velocity_torque_byte() {
    let fields = decode_rs_mit_feedback_fields([7, 0x12, 0x34, 0xab, 0xcd, 0xef, 0x03, 0x20]);
    assert_eq!(fields.motor_id, 7);
    assert_eq!(fields.q, 0x1234);
    assert_eq!(fields.dq, 0xabc);
    assert_eq!(fields.tau, 0xdef);
    assert_eq!(fields.temperature_decidegrees, 800);
}

#[test]
fn rs_frame_accessors_return_what_was_built() {
    let frame = RsCanFrame::standard(0x101, [1, 2, 3, 4, 5, 6, 7, 8]);
    assert_eq!(frame.arbitration_id(), 0x101);
    assert_eq!(frame.data(), [1, 2, 3, 4, 5, 6, 7, 8]);
}
