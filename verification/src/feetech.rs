//! Feetech protocol-0 packets, as spoken by the STS3215 servos of the SO-ARM.

use vstd::prelude::*;

verus! {

pub const HEADER: [u8; 2] = [0xff, 0xff];

pub const BROADCAST_ID: u8 = 0xfe;

pub const READ: u8 = 0x02;

pub const WRITE: u8 = 0x03;

pub const SYNC_WRITE: u8 = 0x83;

pub const TORQUE_ENABLE: u8 = 40;

pub const GOAL_POSITION: u8 = 42;

pub const PRESENT_POSITION: u8 = 56;

/// The longest status packet the bus waits for before giving up.
pub const MAX_STATUS_BYTES: usize = 260;

/// Errors of the Feetech bus.
#[derive(Debug)]
pub enum FeetechError {
    /// The serial transport failed.
    Transport(String),
    DuplicateMotor,
    UnknownMotor(String),
    Packet(&'static str),
    ServoStatus { id: u8, error: u8 },
}

/// The sum of the bytes of `s`.
pub open spec fn byte_sum(s: Seq<u8>) -> nat
    decreases s.len(),
{
    if s.len() == 0 {
        0
    } else {
        byte_sum(s.drop_last()) + s.last() as nat
    }
}

/// The protocol checksum: the bitwise complement of the byte sum, modulo 256.
pub open spec fn checksum_of(s: Seq<u8>) -> u8 {
    (255 - byte_sum(s) % 256) as u8
}

/// A Feetech packet: header, id, length (parameters plus two), instruction or status
/// code, parameters, and the checksum of everything after the header.
pub open spec fn packet(id: u8, code: u8, parameters: Seq<u8>) -> Seq<u8> {
    let body = seq![id, (parameters.len() + 2) as u8, code] + parameters;
    seq![0xffu8, 0xff] + body + seq![checksum_of(body)]
}

/// How the bus judges a complete status packet `raw` from servo `expected_id`: on success,
/// the status code (always zero) and the returned parameters.
pub open spec fn status_outcome(raw: Seq<u8>, expected_id: u8) -> Result<(u8, Seq<u8>), FeetechError> {
    if raw.len() < 6 || raw[0] != 0xff || raw[1] != 0xff {
        Err(FeetechError::Packet("missing status header"))
    } else if raw[2] != expected_id {
        Err(FeetechError::Packet("status packet has an unexpected motor id"))
    } else if raw.len() != raw[3] + 4 || raw[3] < 2 {
        Err(FeetechError::Packet("status packet has invalid length"))
    } else if checksum_of(raw.subrange(2, raw.len() - 1)) != raw.last() {
        Err(FeetechError::Packet("status checksum mismatch"))
    } else if raw[4] != 0 {
        Err(FeetechError::ServoStatus { id: expected_id, error: raw[4] })
    } else {
        Ok((0u8, raw.subrange(5, raw.len() - 1)))
    }
}

proof fn lemma_byte_sum_push(s: Seq<u8>, b: u8)
    ensures
        byte_sum(s.push(b)) == byte_sum(s) + b,
{
    assert(s.push(b).drop_last() =~= s);
}

/// The protocol checksum of `bytes`.
pub fn checksum(bytes: &[u8]) -> (sum: u8)
    ensures
        sum == checksum_of(bytes@),
{
    let mut total: u32 = 0;
    let mut i: usize = 0;
    while i < bytes.len()
        invariant
            i <= bytes@.len(),
            total == byte_sum(bytes@.subrange(0, i as int)) % 256,
        decreases bytes@.len() - i,
    {
        proof {
            lemma_byte_sum_push(bytes@.subrange(0, i as int), bytes@[i as int]);
            assert(bytes@.subrange(0, i + 1) =~= bytes@.subrange(0, i as int).push(bytes@[i as int]));
        }
        total = (total + bytes[i] as u32) % 256;
        i = i + 1;
    }
    assert(bytes@.subrange(0, bytes@.len() as int) =~= bytes@);
    let folded = total as u8;
    let sum = !folded;
    assert(sum == 255 - folded) by (bit_vector)
        requires
            sum == !folded,
    ;
    sum
}

/// Builds an instruction packet; the parameters must fit the one-byte length field.
pub fn instruction_packet(id: u8, instruction: u8, parameters: &[u8]) -> (out: Vec<u8>)
    requires
        parameters@.len() + 2 <= 255,
    ensures
        out@ == packet(id, instruction, parameters@),
{
    let length = (parameters.len() + 2) as u8;
    let mut body: Vec<u8> = Vec::with_capacity(parameters.len() + 3);
    body.push(id);
    body.push(length);
    body.push(instruction);
    let mut i: usize = 0;
    while i < parameters.len()
        invariant
            i <= parameters@.len(),
            body@ == seq![id, length, instruction] + parameters@.subrange(0, i as int),
        decreases parameters@.len() - i,
    {
        body.push(parameters[i]);
        i = i + 1;
        assert(body@ =~= seq![id, length, instruction] + parameters@.subrange(0, i as int));
    }
    assert(parameters@.subrange(0, parameters@.len() as int) =~= parameters@);
    let sum = checksum(body.as_slice());
    let mut out: Vec<u8> = Vec::with_capacity(parameters.len() + 6);
    out.push(0xff);
    out.push(0xff);
    let mut j: usize = 0;
    while j < body.len()
        invariant
            j <= body@.len(),
            out@ == seq![0xffu8, 0xff] + body@.subrange(0, j as int),
        decreases body@.len() - j,
    {
        out.push(body[j]);
        j = j + 1;
        assert(out@ =~= seq![0xffu8, 0xff] + body@.subrange(0, j as int));
    }
    out.push(sum);
    assert(body@.subrange(0, body@.len() as int) =~= body@);
    assert(out@ =~= packet(id, instruction, parameters@));
    out
}

/// Copies `bytes[start..end]`.
fn copy_range(bytes: &[u8], start: usize, end: usize) -> (out: Vec<u8>)
    requires
        start <= end <= bytes@.len(),
    ensures
        out@ == bytes@.subrange(start as int, end as int),
{
    let mut out: Vec<u8> = Vec::with_capacity(end - start);
    let mut i = start;
    while i < end
        invariant
            start <= i <= end,
            end <= bytes@.len(),
            out@ == bytes@.subrange(start as int, i as int),
        decreases end - i,
    {
        out.push(bytes[i]);
        i = i + 1;
        assert(out@ =~= bytes@.subrange(start as int, i as int));
    }
    out
}

/// Checks a complete status packet from servo `expected_id` and returns its status code
/// and parameters.
pub fn parse_status(raw: &[u8], expected_id: u8) -> (result: Result<(u8, Vec<u8>), FeetechError>)
    ensures
        match (result, status_outcome(raw@, expected_id)) {
            (Ok((code, parameters)), Ok((c, p))) => code == c && parameters@ == p,
            (Err(e), Err(f)) => e == f,
            _ => false,
        },
{
    if raw.len() < 6 || raw[0] != HEADER[0] || raw[1] != HEADER[1] {
        return Err(FeetechError::Packet("missing status header"));
    }
    if raw[2] != expected_id {
        return Err(FeetechError::Packet("status packet has an unexpected motor id"));
    }
    let length = raw[3] as usize;
    if raw.len() != length + 4 || length < 2 {
        return Err(FeetechError::Packet("status packet has invalid length"));
    }
    let body = copy_range(raw, 2, raw.len() - 1);
    if checksum(body.as_slice()) != raw[raw.len() - 1] {
        return Err(FeetechError::Packet("status checksum mismatch"));
    }
    let error = raw[4];
    if error != 0 {
        return Err(FeetechError::ServoStatus { id: expected_id, error });
    }
    Ok((error, copy_range(raw, 5, raw.len() - 1)))
}

proof fn lemma_byte_sum_update(s: Seq<u8>, j: int, b: u8)
    requires
        0 <= j < s.len(),
    ensures
        byte_sum(s.update(j, b)) + s[j] == byte_sum(s) + b,
    decreases s.len(),
{
    if j == s.len() - 1 {
        assert(s.update(j, b).drop_last() =~= s.drop_last());
    } else {
        lemma_byte_sum_update(s.drop_last(), j, b);
        assert(s.update(j, b).drop_last() =~= s.drop_last().update(j, b));
    }
}

/// A status packet that a servo sends with status code zero is accepted from that servo,
/// and yields exactly the parameters it carries.
pub proof fn lemma_status_roundtrip(id: u8, parameters: Seq<u8>)
    requires
        parameters.len() + 2 <= 255,
    ensures
        status_outcome(packet(id, 0, parameters), id) == Ok::<(u8, Seq<u8>), FeetechError>(
            (0u8, parameters),
        ),
{
    let body = seq![id, (parameters.len() + 2) as u8, 0u8] + parameters;
    let p = packet(id, 0, parameters);
    assert(p.subrange(2, p.len() - 1) =~= body);
    assert(p.subrange(5, p.len() - 1) =~= parameters);
}

/// A status packet with a nonzero status code is reported as that servo's error.
pub proof fn lemma_status_error_reported(id: u8, code: u8, parameters: Seq<u8>)
    requires
        parameters.len() + 2 <= 255,
        code != 0,
    ensures
        status_outcome(packet(id, code, parameters), id) == Err::<(u8, Seq<u8>), FeetechError>(
            FeetechError::ServoStatus { id, error: code },
        ),
{
    let body = seq![id, (parameters.len() + 2) as u8, code] + parameters;
    let p = packet(id, code, parameters);
    assert(p.subrange(2, p.len() - 1) =~= body);
}

/// Any single corrupted byte of a status packet makes it rejected.
pub proof fn lemma_status_corruption_rejected(
    id: u8,
    code: u8,
    parameters: Seq<u8>,
    index: int,
    byte: u8,
)
    requires
        parameters.len() + 2 <= 255,
        0 <= index < packet(id, code, parameters).len(),
        byte != packet(id, code, parameters)[index],
    ensures
        status_outcome(packet(id, code, parameters).update(index, byte), id) is Err,
{
    let body = seq![id, (parameters.len() + 2) as u8, code] + parameters;
    let p = packet(id, code, parameters);
    let q = p.update(index, byte);
    assert(p.subrange(2, p.len() - 1) =~= body);
    if 4 <= index < p.len() - 1 {
        assert(q.subrange(2, q.len() - 1) =~= body.update(index - 2, byte));
        lemma_byte_sum_update(body, index - 2, byte);
        assert(byte_sum(body.update(index - 2, byte)) % 256 != byte_sum(body) % 256);
    } else if index == p.len() - 1 {
        assert(q.subrange(2, q.len() - 1) =~= body);
    }
}

} // verus!
