//! RobStride MIT frames for the B601-RS SocketCAN transport.
//!
//! Physical quantities are quantized to unsigned fields by the caller; this module packs
//! and unpacks those fields in the vendor's bit layout.

use vstd::prelude::*;

verus! {

/// Largest identifier of a classic (11-bit) CAN data frame.
pub const RS_MAX_STANDARD_ID: u16 = 0x7ff;

/// Feedback temperatures are reported in tenths of a degree; this many tenths is the
/// thermal stop (80 degrees C).
pub const RS_THERMAL_LIMIT_DECIDEGREES: u16 = 800;

#[derive(Debug)]
pub enum RsMitError {
    Frame(&'static str),
    Transport(String),
}

#[derive(Clone, Copy, Debug, PartialEq, Eq)]
pub struct RsCanFrame {
    arbitration_id: u16,
    data: [u8; 8],
}

impl View for RsCanFrame {
    type V = (u16, Seq<u8>);

    open spec fn view(&self) -> (u16, Seq<u8>) {
        (self.id_spec(), self.payload())
    }
}

impl RsCanFrame {
    pub closed spec fn id_spec(self) -> u16 {
        self.arbitration_id
    }

    pub closed spec fn payload(self) -> Seq<u8> {
        self.data@
    }

    pub fn standard(arbitration_id: u16, data: [u8; 8]) -> (frame: Self)
        ensures
            frame@ == (arbitration_id, data@),
    {
        RsCanFrame { arbitration_id, data }
    }

    pub fn arbitration_id(self) -> (id: u16)
        ensures
            id == self.id_spec(),
    {
        self.arbitration_id
    }

    pub fn data(self) -> (data: [u8; 8])
        ensures
            data@ == self.payload(),
    {
        self.data
    }
}

/// The payload of an enable (0xfc) or disable (0xfd) request.
pub open spec fn rs_lifecycle_payload(enabled: bool) -> Seq<u8> {
    seq![0xffu8, 0xff, 0xff, 0xff, 0xff, 0xff, 0xff, if enabled { 0xfcu8 } else { 0xfdu8 }]
}

/// Wraps a payload in a frame addressed to `motor_id`, refusing identifiers above 11 bits.
pub fn rs_frame(motor_id: u16, data: [u8; 8]) -> (result: Result<RsCanFrame, RsMitError>)
    ensures
        motor_id <= RS_MAX_STANDARD_ID <==> result is Ok,
        result matches Ok(frame) ==> frame@ == (motor_id, data@),
        result matches Err(e) ==> e == RsMitError::Frame("motor CAN ID exceeds 11-bit standard range"),
{
    if motor_id > RS_MAX_STANDARD_ID {
        Err(RsMitError::Frame("motor CAN ID exceeds 11-bit standard range"))
    } else {
        Ok(RsCanFrame::standard(motor_id, data))
    }
}

/// The lifecycle frame of a motor whose identifier is known to fit in eleven bits.
pub fn rs_lifecycle_frame(motor_id: u16, enabled: bool) -> (frame: RsCanFrame)
    ensures
        frame@ == (motor_id, rs_lifecycle_payload(enabled)),
{
    let last: u8 = if enabled { 0xfc } else { 0xfd };
    let data: [u8; 8] = [0xff, 0xff, 0xff, 0xff, 0xff, 0xff, 0xff, last];
    assert(data@ =~= rs_lifecycle_payload(enabled));
    RsCanFrame::standard(motor_id, data)
}

/// Encodes an enable or disable request for one motor.
pub fn encode_rs_mit_lifecycle(motor_id: u16, enabled: bool) -> (result: Result<RsCanFrame, RsMitError>)
    ensures
        motor_id <= RS_MAX_STANDARD_ID <==> result is Ok,
        result matches Ok(frame) ==> frame@ == (motor_id, rs_lifecycle_payload(enabled)),
        result matches Err(e) ==> e == RsMitError::Frame("motor CAN ID exceeds 11-bit standard range"),
{
    if motor_id > RS_MAX_STANDARD_ID {
        return Err(RsMitError::Frame("motor CAN ID exceeds 11-bit standard range"));
    }
    Ok(rs_lifecycle_frame(motor_id, enabled))
}

/// The MIT command payload for quantized position `q` (16 bits), velocity `dq`, gains
/// `kp` and `kd`, and torque `tau` (12 bits each), packed big-endian; wider values keep
/// only their low bits.
pub open spec fn rs_command_payload(q: u32, dq: u32, kp: u32, kd: u32, tau: u32) -> Seq<u8> {
    seq![
        ((q / 256) % 256) as u8,
        (q % 256) as u8,
        ((dq / 16) % 256) as u8,
        ((dq % 16) * 16 + (kp / 256) % 16) as u8,
        (kp % 256) as u8,
        ((kd / 16) % 256) as u8,
        ((kd % 16) * 16 + (tau / 256) % 16) as u8,
        (tau % 256) as u8
    ]
}

/// Packs a quantized MIT command for `motor_id`.
pub fn rs_mit_command_frame(motor_id: u16, q: u32, dq: u32, kp: u32, kd: u32, tau: u32) -> (result:
    Result<RsCanFrame, RsMitError>)
    ensures
        motor_id <= RS_MAX_STANDARD_ID <==> result is Ok,
        result matches Ok(frame) ==> frame@ == (motor_id, rs_command_payload(q, dq, kp, kd, tau)),
        result matches Err(e) ==> e == RsMitError::Frame("motor CAN ID exceeds 11-bit standard range"),
{
    let b0 = (q >> 8) as u8;
    let b1 = q as u8;
    let b2 = (dq >> 4) as u8;
    let b3 = ((dq as u8 & 0x0f) << 4) | ((kp >> 8) as u8 & 0x0f);
    let b4 = kp as u8;
    let b5 = (kd >> 4) as u8;
    let b6 = ((kd as u8 & 0x0f) << 4) | ((tau >> 8) as u8 & 0x0f);
    let b7 = tau as u8;
    proof {
        assert(b0 == ((q / 256) % 256) as u8) by (bit_vector)
            requires
                b0 == (q >> 8) as u8,
        ;
        assert(b1 == (q % 256) as u8) by (bit_vector)
            requires
                b1 == q as u8,
        ;
        assert(b2 == ((dq / 16) % 256) as u8) by (bit_vector)
            requires
                b2 == (dq >> 4) as u8,
        ;
        assert(b3 == ((dq % 16) * 16 + (kp / 256) % 16) as u8) by (bit_vector)
            requires
                b3 == ((dq as u8 & 0x0f) << 4) | ((kp >> 8) as u8 & 0x0f),
        ;
        assert(b4 == (kp % 256) as u8) by (bit_vector)
            requires
                b4 == kp as u8,
        ;
        assert(b5 == ((kd / 16) % 256) as u8) by (bit_vector)
            requires
                b5 == (kd >> 4) as u8,
        ;
        assert(b6 == ((kd % 16) * 16 + (tau / 256) % 16) as u8) by (bit_vector)
            requires
                b6 == ((kd as u8 & 0x0f) << 4) | ((tau >> 8) as u8 & 0x0f),
        ;
        assert(b7 == (tau % 256) as u8) by (bit_vector)
            requires
                b7 == tau as u8,
        ;
    }
    let data: [u8; 8] = [b0, b1, b2, b3, b4, b5, b6, b7];
    assert(data@ =~= rs_command_payload(q, dq, kp, kd, tau));
    rs_frame(motor_id, data)
}

/// The unsigned fields of an MIT feedback payload.
#[derive(Clone, Copy, Debug, PartialEq, Eq, Structural)]
pub struct RsFeedbackFields {
    pub motor_id: u8,
    /// Quantized position (16 bits).
    pub q: u32,
    /// Quantized velocity (12 bits).
    pub dq: u32,
    /// Quantized torque (12 bits).
    pub tau: u32,
    /// MOS temperature in tenths of a degree C.
    pub temperature_decidegrees: u16,
}

/// The fields of a feedback payload: motor id, big-endian 16-bit position, 12-bit velocity
/// and torque sharing byte 4, and the big-endian temperature.
pub open spec fn rs_feedback_fields(data: Seq<u8>) -> RsFeedbackFields {
    RsFeedbackFields {
        motor_id: data[0],
        q: (data[1] * 256 + data[2]) as u32,
        dq: (data[3] * 16 + data[4] / 16) as u32,
        tau: ((data[4] % 16) * 256 + data[5]) as u32,
        temperature_decidegrees: (data[6] * 256 + data[7]) as u16,
    }
}

/// Unpacks the fields of an MIT feedback payload.
pub fn decode_rs_mit_feedback_fields(data: [u8; 8]) -> (fields: RsFeedbackFields)
    ensures
        fields == rs_feedback_fields(data@),
{
    let d4 = data[4];
    let high: u8 = d4 >> 4;
    let low: u8 = d4 & 0x0f;
    proof {
        assert(high == d4 / 16 && low == d4 % 16) by (bit_vector)
            requires
                high == d4 >> 4,
                low == d4 & 0x0f,
        ;
    }
    RsFeedbackFields {
        motor_id: data[0],
        q: data[1] as u32 * 256 + data[2] as u32,
        dq: data[3] as u32 * 16 + high as u32,
        tau: low as u32 * 256 + data[5] as u32,
        temperature_decidegrees: data[6] as u16 * 256 + data[7] as u16,
    }
}

/// Packing loses nothing for in-range fields: position, velocity, gains and torque are
/// recovered from the command payload.
pub proof fn lemma_rs_command_fields_recovered(q: u32, dq: u32, kp: u32, kd: u32, tau: u32)
    requires
        q < 0x1_0000,
        dq < 0x1000,
        kp < 0x1000,
        kd < 0x1000,
        tau < 0x1000,
    ensures
        ({
            let b = rs_command_payload(q, dq, kp, kd, tau);
            &&& q == b[0] * 256 + b[1]
            &&& dq == b[2] * 16 + b[3] / 16
            &&& kp == (b[3] % 16) * 256 + b[4]
            &&& kd == b[5] * 16 + b[6] / 16
            &&& tau == (b[6] % 16) * 256 + b[7]
        }),
{
    let b = rs_command_payload(q, dq, kp, kd, tau);
    assert(b[3] / 16 == dq % 16 && b[3] % 16 == (kp / 256) % 16);
    assert(b[6] / 16 == kd % 16 && b[6] % 16 == (tau / 256) % 16);
}

} // verus!
