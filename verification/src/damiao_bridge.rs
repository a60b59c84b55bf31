//! The Damiao USB-to-CAN serial bridge: 30-byte TX and 16-byte RX envelopes.
//!
//! The bridge is transport-only. It carries classic CAN frames and has no motor semantics.

use std::collections::VecDeque;
use vstd::prelude::*;

use crate::damiao::{DamiaoCanFrame, MAX_STANDARD_ID};

verus! {

pub const TX_FRAME_LEN: usize = 30;

pub const RX_FRAME_LEN: usize = 16;

pub const RX_HEADER: u8 = 0xaa;

pub const RX_TRAILER: u8 = 0x55;

pub const RX_CAN_FORWARDING: u8 = 0x11;

/// The 30-byte TX envelope that asks the bridge to send `frame` once.
pub open spec fn tx_envelope(frame: DamiaoCanFrame) -> Seq<u8> {
    seq![
        0x55u8, 0xaa, 0x1e, 0x03,
        1, 0, 0, 0,
        10, 0, 0, 0,
        0,
        (frame.id_spec() % 256) as u8, (frame.id_spec() / 256) as u8, 0, 0,
        0,
        8, 0, 0
    ] + frame.payload() + seq![0u8]
}

/// The little-endian CAN identifier carried in bytes 3..7 of an RX envelope.
pub open spec fn rx_id(w: Seq<u8>) -> int {
    w[3] + 256 * w[4] + 65536 * w[5] + 16777216 * w[6]
}

/// A well-formed RX envelope: CAN forwarding, a standard data frame with eight bytes,
/// an 11-bit identifier and the trailer.
pub open spec fn is_valid_rx_envelope(w: Seq<u8>) -> bool {
    &&& w.len() >= RX_FRAME_LEN
    &&& w[0] == RX_HEADER
    &&& w[1] == RX_CAN_FORWARDING
    &&& w[2] == 8
    &&& w[15] == RX_TRAILER
    &&& rx_id(w) <= MAX_STANDARD_ID
}

/// The 16-byte RX envelope in which the bridge forwards a received frame.
pub open spec fn rx_envelope(id: u16, payload: Seq<u8>) -> Seq<u8> {
    seq![RX_HEADER, RX_CAN_FORWARDING, 8u8, (id % 256) as u8, (id / 256) as u8, 0u8, 0u8] + payload
        + seq![RX_TRAILER]
}

/// What the receiver makes of a buffered byte stream: the first valid envelope that starts
/// at a header byte, after skipping noise and rejected envelopes one byte at a time,
/// together with the bytes that stay buffered.
pub open spec fn scan_rx(s: Seq<u8>) -> (Option<(u16, Seq<u8>)>, Seq<u8>)
    decreases s.len(),
{
    if s.len() == 0 {
        (None, s)
    } else if s[0] != RX_HEADER {
        scan_rx(s.drop_first())
    } else if s.len() < RX_FRAME_LEN {
        (None, s)
    } else if is_valid_rx_envelope(s) {
        (Some((rx_id(s) as u16, s.subrange(7, 15))), s.skip(RX_FRAME_LEN as int))
    } else {
        scan_rx(s.drop_first())
    }
}

/// The frame view of an optional frame.
pub open spec fn frame_option_view(f: Option<DamiaoCanFrame>) -> Option<(u16, Seq<u8>)> {
    match f {
        Some(frame) => Some(frame@),
        None => None,
    }
}

/// Encodes the documented 30-byte TX envelope for one frame.
pub fn encode_tx(frame: DamiaoCanFrame) -> (out: [u8; 30])
    ensures
        out@ == tx_envelope(frame),
{
    let id = frame.arbitration_id();
    let data = frame.data();
    proof {
        assert((id as u8) == id % 256) by (bit_vector);
        assert(((id >> 8u16) as u8) == id / 256) by (bit_vector);
    }
    let out: [u8; 30] = [
        0x55,
        0xaa,
        0x1e,
        0x03,
        1,
        0,
        0,
        0,
        10,
        0,
        0,
        0,
        0,
        id as u8,
        (id >> 8) as u8,
        0,
        0,
        0,
        8,
        0,
        0,
        data[0],
        data[1],
        data[2],
        data[3],
        data[4],
        data[5],
        data[6],
        data[7],
        0,
    ];
    assert(out@ =~= tx_envelope(frame));
    out
}

proof fn lemma_scan_rx_header_miss(s: Seq<u8>)
    requires
        s.len() > 0,
        s[0] != RX_HEADER,
    ensures
        scan_rx(s) == scan_rx(s.subrange(1, s.len() as int)),
{
    assert(s.drop_first() =~= s.subrange(1, s.len() as int));
}

/// Takes the first valid RX envelope out of `rx`, discarding the noise and rejected
/// envelopes in front of it; leaves a partial envelope buffered.
pub fn parse_rx(rx: &mut VecDeque<u8>) -> (frame: Option<DamiaoCanFrame>)
    ensures
        frame_option_view(frame) == scan_rx(old(rx)@).0,
        final(rx)@ == scan_rx(old(rx)@).1,
{
    while rx.len() > 0 && rx[0] != RX_HEADER
        invariant
            scan_rx(rx@) == scan_rx(old(rx)@),
        decreases rx@.len(),
    {
        proof {
            lemma_scan_rx_header_miss(rx@);
        }
        rx.pop_front();
    }
    while rx.len() >= RX_FRAME_LEN
        invariant
            scan_rx(rx@) == scan_rx(old(rx)@),
            rx@.len() == 0 || rx@[0] == RX_HEADER,
        decreases rx@.len(),
    {
        let kind = rx[2];
        let dlc = kind & 0x3f;
        let is_extended = kind & 0x40 != 0;
        let is_remote = kind & 0x80 != 0;
        let arbitration_id: u32 = rx[3] as u32 + (rx[4] as u32) * 256 + (rx[5] as u32) * 65536 + (
        rx[6] as u32) * 16777216;
        proof {
            assert(dlc == 8 && !is_extended && !is_remote <==> kind == 8) by (bit_vector)
                requires
                    dlc == kind & 0x3f,
                    is_extended == (kind & 0x40 != 0),
                    is_remote == (kind & 0x80 != 0),
            ;
        }
        if rx[1] != RX_CAN_FORWARDING || rx[15] != RX_TRAILER || dlc != 8 || is_extended
            || is_remote || arbitration_id > 0x7ff {
            // A corrupt prefix can hold the next frame's header: drop only the rejected
            // header, then resynchronise byte by byte.
            let ghost before = rx@.len();
            proof {
                assert(!is_valid_rx_envelope(rx@));
                assert(rx@.drop_first() =~= rx@.subrange(1, rx@.len() as int));
            }
            rx.pop_front();
            while rx.len() > 0 && rx[0] != RX_HEADER
                invariant
                    scan_rx(rx@) == scan_rx(old(rx)@),
                    rx@.len() < before,
                decreases rx@.len(),
            {
                proof {
                    lemma_scan_rx_header_miss(rx@);
                }
                rx.pop_front();
            }
            continue ;
        }
        let data: [u8; 8] = [rx[7], rx[8], rx[9], rx[10], rx[11], rx[12], rx[13], rx[14]];
        let ghost window = rx@;
        proof {
            assert(arbitration_id == rx_id(window));
            assert(is_valid_rx_envelope(window));
            assert(data@ =~= window.subrange(7, 15));
            assert(scan_rx(window) == (
                Some((rx_id(window) as u16, window.subrange(7, 15))),
                window.skip(RX_FRAME_LEN as int),
            ));
        }
        let mut k: usize = 0;
        while k < RX_FRAME_LEN
            invariant
                k <= RX_FRAME_LEN,
                window.len() >= RX_FRAME_LEN,
                rx@ == window.subrange(k as int, window.len() as int),
            decreases RX_FRAME_LEN - k,
        {
            rx.pop_front();
            k = k + 1;
            assert(rx@ =~= window.subrange(k as int, window.len() as int));
        }
        assert(rx@ =~= window.skip(RX_FRAME_LEN as int));
        return Some(DamiaoCanFrame::standard(arbitration_id as u16, data));
    }
    None
}

/// Encodes and decodes the serial bridge envelopes for one serial session `T`.
///
/// The bus owns the session and the bytes received but not yet framed. The session's I/O
/// is performed by its owner: the bus says what to write and what to make of what was read.
pub struct DamiaoSerialBus<T> {
    serial: T,
    rx: VecDeque<u8>,
}

/// What the bus made of one serial read.
pub enum DamiaoReceive {
    /// A complete feedback frame was framed.
    Frame(DamiaoCanFrame),
    /// The session reported no bytes: there is no frame to wait for.
    NoBytes,
    /// More bytes are needed.
    NeedMore,
}

impl<T> DamiaoSerialBus<T> {
    /// The serial session.
    pub closed spec fn session(&self) -> T {
        self.serial
    }

    /// Bytes read from the session and not yet framed.
    pub closed spec fn buffered(&self) -> Seq<u8> {
        self.rx@
    }

    pub fn new(serial: T) -> (bus: Self)
        ensures
            bus.session() == serial,
            bus.buffered() == Seq::<u8>::empty(),
    {
        DamiaoSerialBus { serial, rx: VecDeque::with_capacity(RX_FRAME_LEN * 2) }
    }

    pub fn into_serial(self) -> (serial: T)
        ensures
            serial == self.session(),
    {
        self.serial
    }

    /// The serial session, for its owner to read or write.
    pub fn serial_mut(&mut self) -> (serial: &mut T)
        ensures
            *serial == old(self).session(),
            final(self).session() == *final(serial),
            final(self).buffered() == old(self).buffered(),
    {
        &mut self.serial
    }

    /// The 30-byte envelope to write for `frame`.
    pub fn send_bytes(&self, frame: DamiaoCanFrame) -> (out: [u8; 30])
        ensures
            out@ == tx_envelope(frame),
    {
        encode_tx(frame)
    }

    /// Takes the next complete frame out of the buffered bytes, if there is one.
    pub fn next_frame(&mut self) -> (frame: Option<DamiaoCanFrame>)
        ensures
            frame_option_view(frame) == scan_rx(old(self).buffered()).0,
            final(self).buffered() == scan_rx(old(self).buffered()).1,
            final(self).session() == old(self).session(),
    {
        parse_rx(&mut self.rx)
    }

    /// Takes in the bytes of one serial read. An empty read means that no frame is coming;
    /// otherwise the bytes are buffered and the next complete frame, if any, is taken out.
    pub fn accept_read(&mut self, bytes: &[u8]) -> (outcome: DamiaoReceive)
        ensures
            final(self).session() == old(self).session(),
            bytes@.len() == 0 ==> outcome is NoBytes && final(self).buffered() == old(
                self,
            ).buffered(),
            bytes@.len() > 0 ==> {
                let scanned = scan_rx(old(self).buffered() + bytes@);
                &&& final(self).buffered() == scanned.1
                &&& match outcome {
                    DamiaoReceive::Frame(frame) => scanned.0 == Some(frame@),
                    DamiaoReceive::NeedMore => scanned.0 is None,
                    DamiaoReceive::NoBytes => false,
                }
            },
    {
        if bytes.len() == 0 {
            return DamiaoReceive::NoBytes;
        }
        let mut i: usize = 0;
        while i < bytes.len()
            invariant
                i <= bytes@.len(),
                self.rx@ == old(self).rx@ + bytes@.subrange(0, i as int),
                self.serial == old(self).serial,
            decreases bytes@.len() - i,
        {
            self.rx.push_back(bytes[i]);
            i = i + 1;
            assert(self.rx@ =~= old(self).rx@ + bytes@.subrange(0, i as int));
        }
        assert(bytes@.subrange(0, bytes@.len() as int) =~= bytes@);
        match parse_rx(&mut self.rx) {
            Some(frame) => DamiaoReceive::Frame(frame),
            None => DamiaoReceive::NeedMore,
        }
    }
}

/// What stays buffered after a scan is a suffix of the scanned bytes: the receiver never
/// invents or reorders bytes.
pub proof fn lemma_scan_rx_keeps_suffix(s: Seq<u8>)
    ensures
        scan_rx(s).1.len() <= s.len(),
        scan_rx(s).1 == s.skip(s.len() - scan_rx(s).1.len()),
    decreases s.len(),
{
    if s.len() == 0 {
        assert(s.skip(0) =~= s);
    } else if s[0] != RX_HEADER || (s.len() >= RX_FRAME_LEN && !is_valid_rx_envelope(s)) {
        lemma_scan_rx_keeps_suffix(s.drop_first());
        let r = scan_rx(s).1;
        assert(s.drop_first().skip(s.drop_first().len() - r.len()) =~= s.skip(s.len() - r.len()));
    } else if s.len() < RX_FRAME_LEN {
        assert(s.skip(0) =~= s);
    } else {
        assert(s.skip(RX_FRAME_LEN as int).len() == s.len() - RX_FRAME_LEN);
    }
}

/// A frame is only ever taken from a valid envelope: an 11-bit identifier, eight payload
/// bytes, found as a complete RX envelope somewhere in the scanned bytes.
pub proof fn lemma_scan_rx_only_valid(s: Seq<u8>)
    ensures
        scan_rx(s).0 matches Some((id, payload)) ==> {
            &&& id <= MAX_STANDARD_ID
            &&& payload.len() == 8
            &&& exists|k: int|
                0 <= k && k + RX_FRAME_LEN <= s.len() && #[trigger] s.subrange(k, k + 16)
                    == rx_envelope(id, payload)
        },
    decreases s.len(),
{
    if s.len() == 0 {
    } else if s[0] != RX_HEADER || (s.len() >= RX_FRAME_LEN && !is_valid_rx_envelope(s)) {
        lemma_scan_rx_only_valid(s.drop_first());
        if let Some((id, payload)) = scan_rx(s).0 {
            let t = s.drop_first();
            let k = choose|k: int|
                0 <= k && k + RX_FRAME_LEN <= t.len() && #[trigger] t.subrange(k, k + 16)
                    == rx_envelope(id, payload);
            assert(s.subrange(k + 1, k + 1 + 16) =~= t.subrange(k, k + 16));
        }
    } else if s.len() < RX_FRAME_LEN {
    } else {
        let id = rx_id(s) as u16;
        let payload = s.subrange(7, 15);
        assert(s[4] <= 7 && s[5] == 0 && s[6] == 0) by (nonlinear_arith)
            requires
                s[3] + 256 * s[4] + 65536 * s[5] + 16777216 * s[6] <= 0x7ff,
                0 <= s[3] < 256,
                0 <= s[4] < 256,
                0 <= s[5] < 256,
                0 <= s[6] < 256,
        ;
        assert(id as int == rx_id(s));
        assert(s.subrange(0, 16) =~= rx_envelope(id, payload));
        assert(exists|k: int|
            0 <= k && k + RX_FRAME_LEN <= s.len() && #[trigger] s.subrange(k, k + 16)
                == rx_envelope(id, payload)) by {
            let k: int = 0;
            assert(s.subrange(k, k + 16) == rx_envelope(id, payload));
        }
    }
}

/// Reading the byte stream in fragments gives the same result as reading it at once:
/// once a scan of `a` finds nothing, the bytes kept from `a` followed by `b` scan
/// exactly like `a` followed by `b`.
pub proof fn lemma_scan_rx_fragmented(a: Seq<u8>, b: Seq<u8>)
    requires
        scan_rx(a).0 is None,
    ensures
        scan_rx(a + b) == scan_rx(scan_rx(a).1 + b),
    decreases a.len(),
{
    if a.len() == 0 {
        assert(a + b =~= b);
    } else if a[0] != RX_HEADER {
        lemma_scan_rx_fragmented(a.drop_first(), b);
        assert((a + b).drop_first() =~= a.drop_first() + b);
    } else if a.len() < RX_FRAME_LEN {
    } else {
        assert(!is_valid_rx_envelope(a));
        assert((a + b).subrange(0, 16) =~= a.subrange(0, 16));
        assert(!is_valid_rx_envelope(a + b));
        lemma_scan_rx_fragmented(a.drop_first(), b);
        assert((a + b).drop_first() =~= a.drop_first() + b);
    }
}

/// A valid envelope behind noise that holds no header byte is recovered whole, and
/// exactly the bytes after it stay buffered.
pub proof fn lemma_scan_rx_finds_envelope(
    noise: Seq<u8>,
    id: u16,
    payload: Seq<u8>,
    rest: Seq<u8>,
)
    requires
        forall|i: int| 0 <= i < noise.len() ==> noise[i] != RX_HEADER,
        id <= MAX_STANDARD_ID,
        payload.len() == 8,
    ensures
        scan_rx(noise + rx_envelope(id, payload) + rest) == (Some((id, payload)), rest),
    decreases noise.len(),
{
    let s = noise + rx_envelope(id, payload) + rest;
    if noise.len() == 0 {
        assert(s =~= rx_envelope(id, payload) + rest);
        assert(rx_id(s) == id) by {
            assert(id % 256 + 256 * (id / 256) == id);
        }
        assert(s.subrange(7, 15) =~= payload);
        assert(s.skip(16) =~= rest);
    } else {
        lemma_scan_rx_finds_envelope(noise.drop_first(), id, payload, rest);
        assert(s.drop_first() =~= noise.drop_first() + rx_envelope(id, payload) + rest);
    }
}

/// Two envelopes that arrive back to back in one read are delivered one after the other:
/// the first scan yields the first frame and keeps the second envelope buffered, and the
/// next scan yields the second frame from the buffer alone, with nothing left over.
pub proof fn lemma_scan_rx_back_to_back(id1: u16, payload1: Seq<u8>, id2: u16, payload2: Seq<u8>)
    requires
        id1 <= MAX_STANDARD_ID,
        id2 <= MAX_STANDARD_ID,
        payload1.len() == 8,
        payload2.len() == 8,
    ensures
        scan_rx(rx_envelope(id1, payload1) + rx_envelope(id2, payload2)) == (
            Some((id1, payload1)),
            rx_envelope(id2, payload2),
        ),
        scan_rx(rx_envelope(id2, payload2)) == (Some((id2, payload2)), Seq::<u8>::empty()),
{
    let none = Seq::<u8>::empty();
    lemma_scan_rx_finds_envelope(none, id1, payload1, rx_envelope(id2, payload2));
    assert(none + rx_envelope(id1, payload1) + rx_envelope(id2, payload2) =~= rx_envelope(
        id1,
        payload1,
    ) + rx_envelope(id2, payload2));
    lemma_scan_rx_finds_envelope(none, id2, payload2, none);
    assert(none + rx_envelope(id2, payload2) + none =~= rx_envelope(id2, payload2));
}

} // verus!
