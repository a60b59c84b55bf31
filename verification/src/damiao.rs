//! Damiao motor commands and feedback payloads.
//!
//! Frames here carry protocol bytes only: motor modes and safety policy live in the
//! adapter above, and the serial bridge envelope lives in `damiao_bridge`.

use vstd::prelude::*;

verus! {

/// Largest identifier of a classic (11-bit) CAN data frame.
pub const MAX_STANDARD_ID: u16 = 0x7ff;

/// Register number of the Damiao control-mode register.
pub const CTRL_MODE_REGISTER: u8 = 10;

/// Errors of the Damiao bridge and of Damiao frame encoding.
#[derive(Debug)]
pub enum DamiaoError {
    Transport(String),
    Frame(&'static str),
}

/// A standard classic CAN data frame as carried by the Damiao serial bridge.
#[derive(Clone, Copy, Debug, PartialEq, Eq)]
pub struct DamiaoCanFrame {
    arbitration_id: u16,
    data: [u8; 8],
}

impl View for DamiaoCanFrame {
    type V = (u16, Seq<u8>);

    /// A frame seen as its identifier and its payload.
    open spec fn view(&self) -> (u16, Seq<u8>) {
        (self.id_spec(), self.payload())
    }
}

impl DamiaoCanFrame {
    /// The frame's CAN identifier.
    pub closed spec fn id_spec(self) -> u16 {
        self.arbitration_id
    }

    /// The frame's eight payload bytes.
    pub closed spec fn payload(self) -> Seq<u8> {
        self.data@
    }

    /// Every frame is a standard frame: its identifier fits in eleven bits.
    #[verifier::type_invariant]
    spec fn standard_id(self) -> bool {
        self.arbitration_id <= MAX_STANDARD_ID
    }

    /// Builds a frame; the identifier must fit in eleven bits.
    pub fn standard(arbitration_id: u16, data: [u8; 8]) -> (frame: Self)
        requires
            arbitration_id <= MAX_STANDARD_ID,
        ensures
            frame.id_spec() == arbitration_id,
            frame.payload() == data@,
    {
        DamiaoCanFrame { arbitration_id, data }
    }

    /// The frame's identifier, which always fits in eleven bits.
    pub fn arbitration_id(self) -> (id: u16)
        ensures
            id == self.id_spec(),
            id <= MAX_STANDARD_ID,
    {
        proof {
            use_type_invariant(&self);
        }
        self.arbitration_id
    }

    pub fn data(self) -> (data: [u8; 8])
        ensures
            data@ == self.payload(),
    {
        self.data
    }
}

/// Lifecycle requests understood by every Damiao motor.
#[derive(Clone, Copy, Debug, PartialEq, Eq)]
pub enum DamiaoStatus {
    Enable,
    Disable,
    SetZero,
    ClearFault,
}

/// Damiao control modes, as written to the control-mode register.
#[derive(Clone, Copy, Debug, PartialEq, Eq)]
pub enum DamiaoControlMode {
    Mit,
    PositionVelocity,
    Velocity,
    ForcePosition,
}

/// The last payload byte of a lifecycle frame.
pub open spec fn lifecycle_code(status: DamiaoStatus) -> u8 {
    match status {
        DamiaoStatus::Enable => 0xfc,
        DamiaoStatus::Disable => 0xfd,
        DamiaoStatus::SetZero => 0xfe,
        DamiaoStatus::ClearFault => 0xfb,
    }
}

/// The register value of a control mode.
pub open spec fn mode_code(mode: DamiaoControlMode) -> u8 {
    match mode {
        DamiaoControlMode::Mit => 1,
        DamiaoControlMode::PositionVelocity => 2,
        DamiaoControlMode::Velocity => 3,
        DamiaoControlMode::ForcePosition => 4,
    }
}

impl DamiaoControlMode {
    /// The register value written for this mode.
    pub fn code(self) -> (code: u8)
        ensures
            code == mode_code(self),
    {
        match self {
            DamiaoControlMode::Mit => 1,
            DamiaoControlMode::PositionVelocity => 2,
            DamiaoControlMode::Velocity => 3,
            DamiaoControlMode::ForcePosition => 4,
        }
    }
}

/// The payload of a lifecycle frame: seven 0xff bytes and the status code.
pub open spec fn lifecycle_payload(status: DamiaoStatus) -> Seq<u8> {
    seq![0xffu8, 0xff, 0xff, 0xff, 0xff, 0xff, 0xff, lifecycle_code(status)]
}

/// The payload of a control-mode register write for `motor_id`.
pub open spec fn mode_payload(motor_id: u16, mode: DamiaoControlMode) -> Seq<u8> {
    seq![
        (motor_id % 256) as u8,
        (motor_id / 256) as u8,
        0x55u8,
        CTRL_MODE_REGISTER,
        mode_code(mode),
        0u8,
        0u8,
        0u8
    ]
}

/// The identifier under which a motor answers: its own id plus 0x10, saturating.
pub open spec fn reply_id(motor_id: u16) -> int {
    if motor_id + 0x10 > u16::MAX {
        u16::MAX as int
    } else {
        motor_id + 0x10
    }
}

/// Wraps a payload in a frame addressed to `motor_id`, refusing identifiers above 11 bits.
pub fn command_frame(motor_id: u16, data: [u8; 8]) -> (result: Result<DamiaoCanFrame, DamiaoError>)
    ensures
        motor_id <= MAX_STANDARD_ID <==> result is Ok,
        result matches Ok(frame) ==> frame.id_spec() == motor_id && frame.payload() == data@,
        result matches Err(e) ==> e == DamiaoError::Frame(
            "motor CAN ID exceeds 11-bit standard range",
        ),
{
    if motor_id > MAX_STANDARD_ID {
        return Err(DamiaoError::Frame("motor CAN ID exceeds 11-bit standard range"));
    }
    Ok(DamiaoCanFrame::standard(motor_id, data))
}

/// The lifecycle frame for a motor whose identifier is known to fit in eleven bits.
pub fn lifecycle_frame(motor_id: u16, status: DamiaoStatus) -> (frame: DamiaoCanFrame)
    requires
        motor_id <= MAX_STANDARD_ID,
    ensures
        frame@ == (motor_id, lifecycle_payload(status)),
{
    let last: u8 = match status {
        DamiaoStatus::Enable => 0xfc,
        DamiaoStatus::Disable => 0xfd,
        DamiaoStatus::SetZero => 0xfe,
        DamiaoStatus::ClearFault => 0xfb,
    };
    let data: [u8; 8] = [0xff, 0xff, 0xff, 0xff, 0xff, 0xff, 0xff, last];
    assert(data@ =~= lifecycle_payload(status));
    DamiaoCanFrame::standard(motor_id, data)
}

/// Encodes an enable, disable, set-zero or clear-fault request for one motor.
pub fn encode_damiao_lifecycle(motor_id: u16, status: DamiaoStatus) -> (result: Result<
    DamiaoCanFrame,
    DamiaoError,
>)
    ensures
        motor_id <= MAX_STANDARD_ID <==> result is Ok,
        result matches Ok(frame) ==> frame@ == (motor_id, lifecycle_payload(status)),
        result matches Err(e) ==> e == DamiaoError::Frame(
            "motor CAN ID exceeds 11-bit standard range",
        ),
{
    if motor_id > MAX_STANDARD_ID {
        return Err(DamiaoError::Frame("motor CAN ID exceeds 11-bit standard range"));
    }
    Ok(lifecycle_frame(motor_id, status))
}

proof fn lemma_u16_bytes(x: u16)
    ensures
        (x as u8) == x % 256,
        ((x >> 8u16) as u8) == x / 256,
{
    assert((x as u8) == x % 256) by (bit_vector);
    assert(((x >> 8u16) as u8) == x / 256) by (bit_vector);
}

/// The control-mode frame for a motor whose identifier is known to fit in eleven bits.
pub fn mode_frame(motor_id: u16, mode: DamiaoControlMode) -> (frame: DamiaoCanFrame)
    requires
        motor_id <= MAX_STANDARD_ID,
    ensures
        frame@ == (motor_id, mode_payload(motor_id, mode)),
{
    proof {
        lemma_u16_bytes(motor_id);
    }
    let data: [u8; 8] = [
        motor_id as u8,
        (motor_id >> 8) as u8,
        0x55,
        CTRL_MODE_REGISTER,
        mode.code(),
        0,
        0,
        0,
    ];
    assert(data@ =~= mode_payload(motor_id, mode));
    DamiaoCanFrame::standard(motor_id, data)
}

/// Encodes a write of the control-mode register of `motor_id`.
pub fn encode_damiao_mode(motor_id: u16, mode: DamiaoControlMode) -> (result: Result<
    DamiaoCanFrame,
    DamiaoError,
>)
    ensures
        motor_id <= MAX_STANDARD_ID <==> result is Ok,
        result matches Ok(frame) ==> frame@ == (motor_id, mode_payload(motor_id, mode)),
        result matches Err(e) ==> e == DamiaoError::Frame(
            "motor CAN ID exceeds 11-bit standard range",
        ),
{
    if motor_id > MAX_STANDARD_ID {
        return Err(DamiaoError::Frame("motor CAN ID exceeds 11-bit standard range"));
    }
    Ok(mode_frame(motor_id, mode))
}

/// True only for the acknowledged control-mode write of the requested motor and mode.
pub fn is_damiao_mode_ack(frame: DamiaoCanFrame, motor_id: u16, mode: DamiaoControlMode) -> (ack:
    bool)
    ensures
        ack <==> frame.id_spec() == reply_id(motor_id) && frame.payload() == mode_payload(
            motor_id,
            mode,
        ),
{
    proof {
        lemma_u16_bytes(motor_id);
    }
    let data = frame.data;
    let ack = frame.arbitration_id == motor_id.saturating_add(0x10) && data[0] == motor_id as u8
        && data[1] == (motor_id >> 8) as u8 && data[2] == 0x55 && data[3] == CTRL_MODE_REGISTER
        && data[4] == mode.code() && data[5] == 0 && data[6] == 0 && data[7] == 0;
    proof {
        if ack {
            assert(frame.payload() =~= mode_payload(motor_id, mode));
        }
        if frame.payload() == mode_payload(motor_id, mode) {
            assert(frame.payload()[0] == mode_payload(motor_id, mode)[0]);
            assert(frame.payload()[1] == mode_payload(motor_id, mode)[1]);
            assert(frame.payload()[2] == mode_payload(motor_id, mode)[2]);
            assert(frame.payload()[3] == mode_payload(motor_id, mode)[3]);
            assert(frame.payload()[4] == mode_payload(motor_id, mode)[4]);
            assert(frame.payload()[5] == mode_payload(motor_id, mode)[5]);
            assert(frame.payload()[6] == mode_payload(motor_id, mode)[6]);
            assert(frame.payload()[7] == mode_payload(motor_id, mode)[7]);
        }
    }
    ack
}

/// Little-endian bytes of a 32-bit value.
pub open spec fn u32_le(x: u32) -> Seq<u8> {
    seq![
        (x % 256) as u8,
        ((x / 256) % 256) as u8,
        ((x / 65536) % 256) as u8,
        (x / 16777216) as u8
    ]
}

/// Little-endian bytes of a 16-bit value.
pub open spec fn u16_le(x: u16) -> Seq<u8> {
    seq![(x % 256) as u8, (x / 256) as u8]
}

fn u32_le_bytes(x: u32) -> (b: [u8; 4])
    ensures
        b@ == u32_le(x),
{
    let b0 = x as u8;
    let b1 = (x >> 8) as u8;
    let b2 = (x >> 16) as u8;
    let b3 = (x >> 24) as u8;
    proof {
        assert(b0 == (x % 256) as u8 && b1 == ((x / 256) % 256) as u8 && b2 == ((x / 65536) % 256)
            as u8 && b3 == (x / 16777216) as u8) by (bit_vector)
            requires
                b0 == x as u8,
                b1 == (x >> 8) as u8,
                b2 == (x >> 16) as u8,
                b3 == (x >> 24) as u8,
        ;
    }
    let b = [b0, b1, b2, b3];
    assert(b@ =~= u32_le(x));
    b
}

fn u16_le_bytes(x: u16) -> (b: [u8; 2])
    ensures
        b@ == u16_le(x),
{
    proof {
        lemma_u16_bytes(x);
    }
    let b = [x as u8, (x >> 8) as u8];
    assert(b@ =~= u16_le(x));
    b
}

/// The largest scaled velocity or torque of a force/position command (100 rad/s and full
/// torque, scaled by 100 and 10 000).
pub const FORCE_POSITION_SCALE_MAX: u16 = 10_000;

/// The position/velocity command payload: the little-endian IEEE-754 bit patterns of the
/// position and of the velocity limit.
pub fn position_velocity_payload(position_bits: u32, velocity_bits: u32) -> (data: [u8; 8])
    ensures
        data@ == u32_le(position_bits) + u32_le(velocity_bits),
{
    let p = u32_le_bytes(position_bits);
    let v = u32_le_bytes(velocity_bits);
    let data = [p[0], p[1], p[2], p[3], v[0], v[1], v[2], v[3]];
    assert(data@ =~= u32_le(position_bits) + u32_le(velocity_bits));
    data
}

/// The force/position command payload: the little-endian position bit pattern, then the
/// scaled velocity and torque limits, each capped at 10 000, little-endian.
pub fn force_position_payload(position_bits: u32, velocity: u16, torque: u16) -> (data: [u8; 8])
    ensures
        data@ == u32_le(position_bits) + u16_le(
            if velocity > FORCE_POSITION_SCALE_MAX { FORCE_POSITION_SCALE_MAX } else { velocity },
        ) + u16_le(if torque > FORCE_POSITION_SCALE_MAX { FORCE_POSITION_SCALE_MAX } else { torque }),
{
    let capped_velocity = if velocity > FORCE_POSITION_SCALE_MAX {
        FORCE_POSITION_SCALE_MAX
    } else {
        velocity
    };
    let capped_torque = if torque > FORCE_POSITION_SCALE_MAX {
        FORCE_POSITION_SCALE_MAX
    } else {
        torque
    };
    let p = u32_le_bytes(position_bits);
    let v = u16_le_bytes(capped_velocity);
    let t = u16_le_bytes(capped_torque);
    let data = [p[0], p[1], p[2], p[3], v[0], v[1], t[0], t[1]];
    assert(data@ =~= u32_le(position_bits) + u16_le(capped_velocity) + u16_le(capped_torque));
    data
}

/// The unsigned fields of a Damiao feedback payload.
#[derive(Clone, Copy, Debug, PartialEq, Eq, Structural)]
pub struct DamiaoFeedbackFields {
    pub motor_id: u8,
    pub status_code: u8,
    /// Quantized position (16 bits).
    pub position: u32,
    /// Quantized velocity (12 bits).
    pub velocity: u32,
    /// Quantized torque (12 bits).
    pub torque: u32,
    pub mos_temperature_c: u8,
    pub rotor_temperature_c: u8,
}

/// The fields of a feedback payload: motor id in the low and status in the high nibble of
/// byte 0, big-endian 16-bit position, 12-bit velocity and torque sharing byte 4, and the
/// two temperatures.
pub open spec fn damiao_feedback_fields(data: Seq<u8>) -> DamiaoFeedbackFields {
    DamiaoFeedbackFields {
        motor_id: data[0] % 16,
        status_code: data[0] / 16,
        position: (data[1] * 256 + data[2]) as u32,
        velocity: (data[3] * 16 + data[4] / 16) as u32,
        torque: ((data[4] % 16) * 256 + data[5]) as u32,
        mos_temperature_c: data[6],
        rotor_temperature_c: data[7],
    }
}

/// Unpacks the fields of a Damiao feedback payload.
pub fn decode_damiao_feedback_fields(data: [u8; 8]) -> (fields: DamiaoFeedbackFields)
    ensures
        fields == damiao_feedback_fields(data@),
{
    let d0 = data[0];
    let d4 = data[4];
    let id: u8 = d0 & 0x0f;
    let status: u8 = d0 >> 4;
    let high: u8 = d4 >> 4;
    let low: u8 = d4 & 0x0f;
    proof {
        assert(id == d0 % 16 && status == d0 / 16) by (bit_vector)
            requires
                id == d0 & 0x0f,
                status == d0 >> 4,
        ;
        assert(high == d4 / 16 && low == d4 % 16) by (bit_vector)
            requires
                high == d4 >> 4,
                low == d4 & 0x0f,
        ;
    }
    DamiaoFeedbackFields {
        motor_id: id,
        status_code: status,
        position: data[1] as u32 * 256 + data[2] as u32,
        velocity: data[3] as u32 * 16 + high as u32,
        torque: low as u32 * 256 + data[5] as u32,
        mos_temperature_c: data[6],
        rotor_temperature_c: data[7],
    }
}

} // verus!
