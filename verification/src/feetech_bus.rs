//! The Feetech protocol-0 bus of the SO-ARM: a named motor table and the bus transactions.
//!
//! The bus owns the serial session `T`; its owner performs the reads and writes that the
//! bus asks for and reports what happened.

use vstd::prelude::*;

use crate::feetech::{
    checksum_of, instruction_packet, lemma_status_roundtrip, packet, parse_status, status_outcome,
    FeetechError,
    BROADCAST_ID, GOAL_POSITION, MAX_STATUS_BYTES, PRESENT_POSITION, READ, SYNC_WRITE,
    TORQUE_ENABLE, WRITE,
};
use crate::names::{compare_names, lemma_name_lt_total, name_lt, NameOrder};

verus! {

/// A motor entry seen as its name and servo id.
pub open spec fn motor_view(m: (String, u8)) -> (Seq<char>, u8) {
    (m.0@, m.1)
}

/// A motor table seen as names and servo ids.
pub open spec fn table_view(v: Seq<(String, u8)>) -> Seq<(Seq<char>, u8)> {
    v.map_values(|m: (String, u8)| motor_view(m))
}

/// Two entries share a name or a servo id.
pub open spec fn has_duplicate_motor(input: Seq<(String, u8)>) -> bool {
    exists|i: int, j: int|
        0 <= i < j < input.len() && (#[trigger] input[i].0@ == #[trigger] input[j].0@ || input[i].1
            == input[j].1)
}

/// Names strictly increase along the table (the order of `String`'s `Ord`).
pub open spec fn sorted_by_name(t: Seq<(Seq<char>, u8)>) -> bool {
    forall|i: int| 0 <= i < t.len() - 1 ==> name_lt(#[trigger] t[i].0, t[i + 1].0)
}

/// No two entries share a name or a servo id.
pub open spec fn distinct_motors(t: Seq<(Seq<char>, u8)>) -> bool {
    forall|i: int, j: int|
        0 <= i < t.len() && 0 <= j < t.len() && i != j ==> #[trigger] t[i].0 != #[trigger] t[j].0
            && t[i].1 != t[j].1
}

/// `t` holds exactly the entries of `input`.
pub open spec fn same_motors(t: Seq<(Seq<char>, u8)>, input: Seq<(String, u8)>) -> bool {
    &&& t.len() == input.len()
    &&& forall|j: int| 0 <= j < input.len() ==> t.contains(motor_view(#[trigger] input[j]))
    &&& forall|x: (Seq<char>, u8)|
        #[trigger] t.contains(x) ==> exists|j: int| 0 <= j < input.len() && x == motor_view(input[j])
}

/// The servo id of the motor named `name` in `t`, if there is one.
pub open spec fn motor_id_of(t: Seq<(Seq<char>, u8)>, name: Seq<char>) -> Option<u8> {
    if exists|k: int| 0 <= k < t.len() && #[trigger] t[k].0 == name {
        Some(t[choose|k: int| 0 <= k < t.len() && #[trigger] t[k].0 == name].1)
    } else {
        None
    }
}

/// The packet that writes the torque-enable register of servo `id`.
pub open spec fn torque_packet(id: u8, enabled: bool) -> Seq<u8> {
    packet(id, WRITE, seq![TORQUE_ENABLE, if enabled { 1u8 } else { 0u8 }])
}

/// The packet that reads the two-byte present position of servo `id`.
pub open spec fn position_request(id: u8) -> Seq<u8> {
    packet(id, READ, seq![PRESENT_POSITION, 2u8])
}

/// The sync-write entries for goal positions: servo id and little-endian ticks for each,
/// in the order given; the first unknown motor name is an error.
pub open spec fn goal_entries(t: Seq<(Seq<char>, u8)>, goals: Seq<(String, u16)>) -> Result<
    Seq<u8>,
    FeetechError,
>
    decreases goals.len(),
{
    if goals.len() == 0 {
        Ok(Seq::empty())
    } else {
        match motor_id_of(t, goals[0].0@) {
            None => Err(FeetechError::UnknownMotor(goals[0].0)),
            Some(id) => match goal_entries(t, goals.drop_first()) {
                Ok(rest) => Ok(
                    seq![id, (goals[0].1 % 256) as u8, (goals[0].1 / 256) as u8] + rest,
                ),
                Err(e) => Err(e),
            },
        }
    }
}

/// Successful goal entries take three bytes per goal.
pub proof fn lemma_goal_entries_len(t: Seq<(Seq<char>, u8)>, goals: Seq<(String, u16)>)
    ensures
        goal_entries(t, goals) matches Ok(e) ==> e.len() == 3 * goals.len(),
    decreases goals.len(),
{
    if goals.len() > 0 {
        lemma_goal_entries_len(t, goals.drop_first());
    }
}

/// When every goal names a motor of the table, the sync-write entries carry, for each goal
/// in the order given, that motor's servo id and the goal ticks, low byte first.
pub proof fn lemma_goal_entries_in_order(t: Seq<(Seq<char>, u8)>, goals: Seq<(String, u16)>)
    requires
        forall|i: int| 0 <= i < goals.len() ==> motor_id_of(t, (#[trigger] goals[i]).0@) is Some,
    ensures
        goal_entries(t, goals) matches Ok(e) && e.len() == 3 * goals.len() && forall|i: int|
            0 <= i < goals.len() ==> {
                &&& e[3 * i] == motor_id_of(t, (#[trigger] goals[i]).0@).unwrap()
                &&& e[3 * i + 1] == (goals[i].1 % 256) as u8
                &&& e[3 * i + 2] == (goals[i].1 / 256) as u8
            },
    decreases goals.len(),
{
    if goals.len() > 0 {
        let rest = goals.drop_first();
        assert forall|i: int| 0 <= i < rest.len() implies motor_id_of(t, (#[trigger] rest[i]).0@) is Some by {
            assert(rest[i] == goals[i + 1]);
        }
        lemma_goal_entries_in_order(t, rest);
        assert(motor_id_of(t, goals[0].0@) is Some);
        let e = goal_entries(t, goals)->Ok_0;
        let r = goal_entries(t, rest)->Ok_0;
        assert forall|i: int| 0 <= i < goals.len() implies {
            &&& e[3 * i] == motor_id_of(t, (#[trigger] goals[i]).0@).unwrap()
            &&& e[3 * i + 1] == (goals[i].1 % 256) as u8
            &&& e[3 * i + 2] == (goals[i].1 / 256) as u8
        } by {
            if i > 0 {
                assert(rest[i - 1] == goals[i]);
                assert(e[3 * i] == r[3 * (i - 1)]);
                assert(e[3 * i + 1] == r[3 * (i - 1) + 1]);
                assert(e[3 * i + 2] == r[3 * (i - 1) + 2]);
            }
        }
    }
}

/// The first goal that names no motor of the table is the error, and nothing is written.
pub proof fn lemma_goal_entries_unknown(t: Seq<(Seq<char>, u8)>, goals: Seq<(String, u16)>, k: int)
    requires
        0 <= k < goals.len(),
        motor_id_of(t, goals[k].0@) is None,
        forall|j: int| 0 <= j < k ==> motor_id_of(t, (#[trigger] goals[j]).0@) is Some,
    ensures
        goal_entries(t, goals) == Err::<Seq<u8>, FeetechError>(FeetechError::UnknownMotor(goals[k].0)),
    decreases k,
{
    if k > 0 {
        let rest = goals.drop_first();
        assert(rest[k - 1] == goals[k]);
        assert forall|j: int| 0 <= j < k - 1 implies motor_id_of(t, (#[trigger] rest[j]).0@) is Some by {
            assert(rest[j] == goals[j + 1]);
        }
        lemma_goal_entries_unknown(t, rest, k - 1);
        assert(motor_id_of(t, goals[0].0@) is Some);
    }
}

/// The broadcast sync-write of goal positions.
pub open spec fn goal_packet(entries: Seq<u8>) -> Seq<u8> {
    packet(BROADCAST_ID, SYNC_WRITE, seq![GOAL_POSITION, 2u8] + entries)
}

/// Progress of a status read after one more chunk of serial bytes.
pub enum StatusProgress {
    Failed(FeetechError),
    /// The status packet is complete: these are its bytes.
    Complete(Seq<u8>),
    /// More bytes are needed: these are the bytes so far.
    Incomplete(Seq<u8>),
}

/// A status read: an empty chunk ends it; once the length byte is in, the packet is complete
/// when that many bytes are; a read that grows past the protocol limit fails.
pub open spec fn status_progress(raw: Seq<u8>, chunk: Seq<u8>) -> StatusProgress {
    if chunk.len() == 0 {
        StatusProgress::Failed(FeetechError::Packet("serial read ended before a status packet"))
    } else {
        let r = raw + chunk;
        if r.len() >= 4 && r.len() >= r[3] + 4 {
            StatusProgress::Complete(r.subrange(0, r[3] + 4))
        } else if r.len() > MAX_STATUS_BYTES {
            StatusProgress::Failed(FeetechError::Packet("status packet exceeds protocol limit"))
        } else {
            StatusProgress::Incomplete(r)
        }
    }
}

/// A bus transaction.
pub enum BusRequest {
    /// Write the torque-enable register of every motor, in name order, each acknowledged
    /// by a status packet.
    SetTorque(bool),
    /// Read the present position of the named motor.
    ReadPosition(String),
    /// Write goal positions with one broadcast sync-write (no status packets).
    WriteGoal(Vec<(String, u16)>),
}

/// What the owner reports to the bus.
pub enum BusEvent {
    Begin(BusRequest),
    /// The requested bytes were written.
    Written,
    /// The requested read returned these bytes (possibly none).
    Read(Vec<u8>),
    /// The requested write or read failed.
    Failed(FeetechError),
}

/// What a finished transaction yields.
#[derive(Clone, Copy, Debug, PartialEq, Eq, Structural)]
pub enum BusReply {
    Unit,
    Ticks(u16),
}

/// What the bus asks of its owner next.
pub enum BusAction {
    Write(Vec<u8>),
    /// Read up to this many bytes.
    Read(usize),
    Done(Result<BusReply, FeetechError>),
}

/// The spec-level description of a bus action.
pub enum BusPlan {
    Write(Seq<u8>),
    Read(usize),
    Done(Result<BusReply, FeetechError>),
}

pub open spec fn action_is(action: BusAction, plan: BusPlan) -> bool {
    match (action, plan) {
        (BusAction::Write(bytes), BusPlan::Write(expected)) => bytes@ == expected,
        (BusAction::Read(n), BusPlan::Read(m)) => n == m,
        (BusAction::Done(r), BusPlan::Done(p)) => r == p,
        _ => false,
    }
}

/// The transaction step the bus is waiting for.
#[derive(Clone, Copy, Debug, PartialEq, Eq, Structural)]
pub enum BusPending {
    Idle,
    /// The torque write of the motor at `index` (name order) is being written or its status
    /// read.
    Torque { index: usize, enabled: bool, reading: bool },
    /// The position request of servo `id` is being written or its status read.
    Position { id: u8, reading: bool },
    /// The goal sync-write is being written.
    Goal,
}

/// The bus's observable condition.
pub struct BusModel {
    pub motors: Seq<(Seq<char>, u8)>,
    pub pending: BusPending,
    /// Status bytes read so far.
    pub raw: Seq<u8>,
}

/// Bytes asked for by each status read.
pub const STATUS_READ_BYTES: usize = 64;

pub open spec fn bus_mismatch() -> FeetechError {
    FeetechError::Packet("transport event does not answer the pending request")
}

/// The bus transition: the new pending step, the status bytes kept, and the action.
pub open spec fn bus_step(m: BusModel, event: BusEvent) -> (BusPending, Seq<u8>, BusPlan) {
    let none = Seq::<u8>::empty();
    match event {
        BusEvent::Begin(BusRequest::SetTorque(enabled)) => if m.motors.len() == 0 {
            (BusPending::Idle, none, BusPlan::Done(Ok(BusReply::Unit)))
        } else {
            (
                BusPending::Torque { index: 0, enabled, reading: false },
                none,
                BusPlan::Write(torque_packet(m.motors[0].1, enabled)),
            )
        },
        BusEvent::Begin(BusRequest::ReadPosition(name)) => match motor_id_of(m.motors, name@) {
            None => (BusPending::Idle, none, BusPlan::Done(Err(FeetechError::UnknownMotor(name)))),
            Some(id) => (
                BusPending::Position { id, reading: false },
                none,
                BusPlan::Write(position_request(id)),
            ),
        },
        BusEvent::Begin(BusRequest::WriteGoal(goals)) => if goals@.len() == 0 {
            (BusPending::Idle, none, BusPlan::Done(Ok(BusReply::Unit)))
        } else {
            match goal_entries(m.motors, goals@) {
                Err(e) => (BusPending::Idle, none, BusPlan::Done(Err(e))),
                Ok(entries) => (BusPending::Goal, none, BusPlan::Write(goal_packet(entries))),
            }
        },
        BusEvent::Written => match m.pending {
            BusPending::Torque { index, enabled, reading: false } => (
                BusPending::Torque { index, enabled, reading: true },
                none,
                BusPlan::Read(STATUS_READ_BYTES),
            ),
            BusPending::Position { id, reading: false } => (
                BusPending::Position { id, reading: true },
                none,
                BusPlan::Read(STATUS_READ_BYTES),
            ),
            BusPending::Goal => (BusPending::Idle, none, BusPlan::Done(Ok(BusReply::Unit))),
            _ => (BusPending::Idle, none, BusPlan::Done(Err(bus_mismatch()))),
        },
        BusEvent::Read(chunk) => match m.pending {
            BusPending::Torque { index, enabled, reading: true } => match status_progress(
                m.raw,
                chunk@,
            ) {
                StatusProgress::Failed(e) => (BusPending::Idle, none, BusPlan::Done(Err(e))),
                StatusProgress::Incomplete(r) => (m.pending, r, BusPlan::Read(STATUS_READ_BYTES)),
                StatusProgress::Complete(c) => match status_outcome(c, m.motors[index as int].1) {
                    Err(e) => (BusPending::Idle, none, BusPlan::Done(Err(e))),
                    Ok(_) => if index + 1 < m.motors.len() {
                        (
                            BusPending::Torque { index: (index + 1) as usize, enabled, reading: false },
                            none,
                            BusPlan::Write(torque_packet(m.motors[index + 1].1, enabled)),
                        )
                    } else {
                        (BusPending::Idle, none, BusPlan::Done(Ok(BusReply::Unit)))
                    },
                },
            },
            BusPending::Position { id, reading: true } => match status_progress(m.raw, chunk@) {
                StatusProgress::Failed(e) => (BusPending::Idle, none, BusPlan::Done(Err(e))),
                StatusProgress::Incomplete(r) => (m.pending, r, BusPlan::Read(STATUS_READ_BYTES)),
                StatusProgress::Complete(c) => match status_outcome(c, id) {
                    Err(e) => (BusPending::Idle, none, BusPlan::Done(Err(e))),
                    Ok((_, p)) => if p.len() != 2 {
                        (
                            BusPending::Idle,
                            none,
                            BusPlan::Done(
                                Err(FeetechError::Packet("position status has unexpected data length")),
                            ),
                        )
                    } else {
                        (
                            BusPending::Idle,
                            none,
                            BusPlan::Done(Ok(BusReply::Ticks((p[0] + 256 * p[1]) as u16))),
                        )
                    },
                },
            },
            _ => (BusPending::Idle, none, BusPlan::Done(Err(bus_mismatch()))),
        },
        BusEvent::Failed(e) => if m.pending is Idle {
            (BusPending::Idle, none, BusPlan::Done(Err(bus_mismatch())))
        } else {
            (BusPending::Idle, none, BusPlan::Done(Err(e)))
        },
    }
}

/// The bus condition and the plans after a sequence of events.
pub open spec fn bus_run(m: BusModel, events: Seq<BusEvent>) -> (BusModel, Seq<BusPlan>)
    decreases events.len(),
{
    if events.len() == 0 {
        (m, Seq::empty())
    } else {
        let (pending, raw, plan) = bus_step(m, events[0]);
        let (end, plans) = bus_run(BusModel { pending, raw, ..m }, events.drop_first());
        (end, seq![plan] + plans)
    }
}

/// The status packet with which servo `id` acknowledges a write.
pub open spec fn ack_packet(id: u8) -> Seq<u8> {
    packet(id, 0, Seq::empty())
}

/// In a torque transaction, the write to the `k`th motor of `t` completes and that motor's
/// acknowledgement arrives.
pub open spec fn torque_acknowledged(events: Seq<BusEvent>, t: Seq<(Seq<char>, u8)>, k: int) -> bool {
    &&& events[2 * k + 1] is Written
    &&& events[2 * k + 2] matches BusEvent::Read(c) && c@ == ack_packet(t[k].1)
}

/// The plans of a torque transaction that every motor acknowledges: each motor's torque
/// write and status read, in table order, then success.
pub open spec fn torque_sweep_plans(t: Seq<(Seq<char>, u8)>, enabled: bool) -> Seq<BusPlan> {
    Seq::new(
        (2 * t.len() + 1) as nat,
        |j: int|
            if j == 2 * t.len() {
                BusPlan::Done(Ok(BusReply::Unit))
            } else if j % 2 == 0 {
                BusPlan::Write(torque_packet(t[j / 2].1, enabled))
            } else {
                BusPlan::Read(STATUS_READ_BYTES)
            },
    )
}

proof fn lemma_torque_ack_step(m: BusModel, enabled: bool, i: int, c: Vec<u8>)
    requires
        0 <= i < m.motors.len() <= usize::MAX,
        m.pending == (BusPending::Torque { index: i as usize, enabled, reading: true }),
        m.raw.len() == 0,
        c@ == ack_packet(m.motors[i].1),
    ensures
        bus_step(m, BusEvent::Read(c)) == if i + 1 < m.motors.len() {
            (
                BusPending::Torque { index: (i + 1) as usize, enabled, reading: false },
                Seq::<u8>::empty(),
                BusPlan::Write(torque_packet(m.motors[i + 1].1, enabled)),
            )
        } else {
            (BusPending::Idle, Seq::<u8>::empty(), BusPlan::Done(Ok(BusReply::Unit)))
        },
{
    let ack = ack_packet(m.motors[i].1);
    assert(ack[3] == 2);
    assert(ack.subrange(0, ack[3] + 4) =~= ack);
    assert(m.raw + c@ =~= ack);
    lemma_status_roundtrip(m.motors[i].1, Seq::empty());
    assert(status_progress(m.raw, c@) == StatusProgress::Complete(ack));
}

proof fn lemma_torque_sweep_from(m: BusModel, enabled: bool, i: int, events: Seq<BusEvent>)
    requires
        0 <= i < m.motors.len() <= usize::MAX,
        m.pending == (BusPending::Torque { index: i as usize, enabled, reading: false }),
        m.raw.len() == 0,
        events.len() == 2 * m.motors.len() + 1,
        forall|k: int| 0 <= k < m.motors.len() ==> #[trigger] torque_acknowledged(events, m.motors, k),
    ensures
        bus_run(m, events.skip(2 * i + 1)) == (
            BusModel { pending: BusPending::Idle, raw: Seq::empty(), ..m },
            torque_sweep_plans(m.motors, enabled).skip(2 * i + 1),
        ),
    decreases m.motors.len() - i,
{
    let t = m.motors;
    let n = t.len();
    let plans = torque_sweep_plans(t, enabled);
    let end = BusModel { pending: BusPending::Idle, raw: Seq::empty(), ..m };
    let rest = events.skip(2 * i + 1);
    let rest2 = events.skip(2 * i + 2);
    let rest3 = events.skip(2 * i + 3);
    assert(torque_acknowledged(events, t, i));
    assert(rest[0] == events[2 * i + 1]);
    assert(rest.drop_first() =~= rest2);
    assert(rest2[0] == events[2 * i + 2]);
    assert(rest2.drop_first() =~= rest3);
    let reading = BusModel {
        pending: BusPending::Torque { index: i as usize, enabled, reading: true },
        raw: Seq::empty(),
        ..m
    };
    assert(bus_step(m, rest[0]) == (reading.pending, reading.raw, BusPlan::Read(STATUS_READ_BYTES)));
    let c = events[2 * i + 2]->Read_0;
    lemma_torque_ack_step(reading, enabled, i, c);
    let tail = plans.skip(2 * i + 3);
    if i + 1 < n {
        let next = BusModel {
            pending: BusPending::Torque { index: (i + 1) as usize, enabled, reading: false },
            raw: Seq::empty(),
            ..m
        };
        lemma_torque_sweep_from(next, enabled, i + 1, events);
        assert(bus_run(next, rest3) == (end, tail));
        assert(bus_run(reading, rest2) == (
            end,
            seq![BusPlan::Write(torque_packet(t[i + 1].1, enabled))] + tail,
        ));
        assert(plans.skip(2 * i + 1) =~= seq![
            BusPlan::Read(STATUS_READ_BYTES),
            BusPlan::Write(torque_packet(t[i + 1].1, enabled))
        ] + tail);
        assert(seq![BusPlan::Read(STATUS_READ_BYTES)] + (seq![
            BusPlan::Write(torque_packet(t[i + 1].1, enabled))
        ] + tail) =~= plans.skip(2 * i + 1));
    } else {
        assert(rest3.len() == 0);
        let idle = BusModel { pending: BusPending::Idle, raw: Seq::<u8>::empty(), ..reading };
        assert(bus_run(idle, rest3) == (end, Seq::<BusPlan>::empty()));
        assert(bus_run(reading, rest2) == (
            end,
            seq![BusPlan::Done(Ok(BusReply::Unit))] + Seq::<BusPlan>::empty(),
        ));
        assert(plans.skip(2 * i + 1) =~= seq![BusPlan::Read(STATUS_READ_BYTES)] + (seq![
            BusPlan::Done(Ok(BusReply::Unit))
        ] + Seq::<BusPlan>::empty()));
    }
}

/// Acknowledgements are reassembled across reads: while the torque write of motor `i` awaits
/// its status, a non-empty chunk that leaves the status packet still incomplete is kept
/// together with the bytes before it and another read is asked for, with the same motor
/// still pending; the chunk that completes the packet moves on to the next motor's torque
/// write, or, after the last motor, ends the transaction successfully.
pub proof fn lemma_bus_torque_ack_reassembled(m: BusModel, enabled: bool, i: int, chunk: Vec<u8>)
    requires
        0 <= i < m.motors.len() <= usize::MAX,
        m.pending == (BusPending::Torque { index: i as usize, enabled, reading: true }),
        chunk@.len() > 0,
        (m.raw + chunk@).len() <= 6,
        m.raw + chunk@ == ack_packet(m.motors[i].1).subrange(0, (m.raw + chunk@).len() as int),
    ensures
        (m.raw + chunk@).len() < 6 ==> bus_step(m, BusEvent::Read(chunk)) == (
            m.pending,
            m.raw + chunk@,
            BusPlan::Read(STATUS_READ_BYTES),
        ),
        (m.raw + chunk@).len() == 6 ==> bus_step(m, BusEvent::Read(chunk)) == if i + 1
            < m.motors.len() {
            (
                BusPending::Torque { index: (i + 1) as usize, enabled, reading: false },
                Seq::<u8>::empty(),
                BusPlan::Write(torque_packet(m.motors[i + 1].1, enabled)),
            )
        } else {
            (BusPending::Idle, Seq::<u8>::empty(), BusPlan::Done(Ok(BusReply::Unit)))
        },
{
    let ack = ack_packet(m.motors[i].1);
    let r = m.raw + chunk@;
    assert(ack.len() == 6);
    assert(ack[3] == 2);
    if r.len() >= 4 {
        assert(r[3] == ack[3]);
    }
    if r.len() < 6 {
        assert(status_progress(m.raw, chunk@) == StatusProgress::Incomplete(r));
    } else {
        assert(r =~= ack);
        assert(ack.subrange(0, ack[3] + 4) =~= ack);
        lemma_status_roundtrip(m.motors[i].1, Seq::empty());
        assert(status_progress(m.raw, chunk@) == StatusProgress::Complete(ack));
    }
}

/// A torque transaction that every motor acknowledges writes the torque register of each
/// motor in table (name) order, reading each acknowledgement before the next write, and
/// then succeeds.
pub proof fn lemma_bus_torque_sweep(m: BusModel, enabled: bool, events: Seq<BusEvent>)
    requires
        m.motors.len() <= usize::MAX,
        events.len() == 2 * m.motors.len() + 1,
        events[0] == BusEvent::Begin(BusRequest::SetTorque(enabled)),
        forall|k: int| 0 <= k < m.motors.len() ==> #[trigger] torque_acknowledged(events, m.motors, k),
    ensures
        bus_run(m, events) == (
            BusModel { pending: BusPending::Idle, raw: Seq::empty(), ..m },
            torque_sweep_plans(m.motors, enabled),
        ),
{
    reveal_with_fuel(bus_run, 2);
    let t = m.motors;
    let plans = torque_sweep_plans(t, enabled);
    assert(events.drop_first() =~= events.skip(1));
    if t.len() == 0 {
        assert(events.skip(1).len() == 0);
        assert(plans =~= seq![BusPlan::Done(Ok(BusReply::Unit))]);
    } else {
        let first = BusModel {
            pending: BusPending::Torque { index: 0, enabled, reading: false },
            raw: Seq::empty(),
            ..m
        };
        lemma_torque_sweep_from(first, enabled, 0, events);
        assert(plans =~= seq![plans[0]] + plans.skip(1));
    }
}

/// The status packet with which servo `id` reports a two-byte position.
pub open spec fn position_status(id: u8, lo: u8, hi: u8) -> Seq<u8> {
    packet(id, 0, seq![lo, hi])
}

proof fn lemma_position_status_complete(id: u8, lo: u8, hi: u8, raw: Seq<u8>, chunk: Seq<u8>)
    requires
        raw + chunk == position_status(id, lo, hi),
        chunk.len() > 0,
    ensures
        status_progress(raw, chunk) == StatusProgress::Complete(position_status(id, lo, hi)),
        status_outcome(position_status(id, lo, hi), id) == Ok::<(u8, Seq<u8>), FeetechError>(
            (0u8, seq![lo, hi]),
        ),
{
    let p = position_status(id, lo, hi);
    assert(p[3] == 4);
    assert(p.subrange(0, p[3] + 4) =~= p);
    lemma_status_roundtrip(id, seq![lo, hi]);
}

proof fn lemma_position_status_partial(id: u8, lo: u8, hi: u8, chunk: Seq<u8>)
    requires
        0 < chunk.len() < 8,
        chunk =~= position_status(id, lo, hi).subrange(0, chunk.len() as int),
    ensures
        status_progress(Seq::empty(), chunk) == StatusProgress::Incomplete(chunk),
{
    let p = position_status(id, lo, hi);
    assert(Seq::<u8>::empty() + chunk =~= chunk);
    if chunk.len() >= 4 {
        assert(chunk[3] == p[3]);
    }
}

/// A position read asks the named motor for its present position and yields the two
/// status bytes as little-endian ticks, whether the status packet arrives in one read or
/// split across two.
pub proof fn lemma_bus_position_read(
    m: BusModel,
    name: String,
    lo: u8,
    hi: u8,
    first: Vec<u8>,
    second: Vec<u8>,
)
    requires
        motor_id_of(m.motors, name@) is Some,
        first@.len() > 0,
        first@ + second@ == position_status(motor_id_of(m.motors, name@).unwrap(), lo, hi),
    ensures
        ({
            let id = motor_id_of(m.motors, name@).unwrap();
            let ticks = BusPlan::Done(Ok(BusReply::Ticks((lo + 256 * hi) as u16)));
            let begin = seq![BusEvent::Begin(BusRequest::ReadPosition(name)), BusEvent::Written];
            let asked = seq![BusPlan::Write(position_request(id)), BusPlan::Read(STATUS_READ_BYTES)];
            &&& second@.len() == 0 ==> bus_run(m, begin + seq![BusEvent::Read(first)]).1 == asked
                + seq![ticks]
            &&& second@.len() > 0 ==> bus_run(
                m,
                begin + seq![BusEvent::Read(first), BusEvent::Read(second)],
            ).1 == asked + seq![BusPlan::Read(STATUS_READ_BYTES), ticks]
        }),
{
    let id = motor_id_of(m.motors, name@).unwrap();
    let p = position_status(id, lo, hi);
    let ticks = BusPlan::Done(Ok(BusReply::Ticks((lo + 256 * hi) as u16)));
    let asking = BusModel { pending: BusPending::Position { id, reading: false }, raw: Seq::empty(), ..m };
    let reading = BusModel { pending: BusPending::Position { id, reading: true }, raw: Seq::empty(), ..m };
    let idle = BusModel { pending: BusPending::Idle, raw: Seq::empty(), ..m };
    assert(bus_step(m, BusEvent::Begin(BusRequest::ReadPosition(name))) == (
        asking.pending,
        asking.raw,
        BusPlan::Write(position_request(id)),
    ));
    assert(bus_step(asking, BusEvent::Written) == (
        reading.pending,
        reading.raw,
        BusPlan::Read(STATUS_READ_BYTES),
    ));
    let begin = seq![BusEvent::Begin(BusRequest::ReadPosition(name)), BusEvent::Written];
    if second@.len() == 0 {
        assert(first@ =~= p);
        lemma_position_status_complete(id, lo, hi, Seq::empty(), first@);
        assert(bus_step(reading, BusEvent::Read(first)) == (idle.pending, idle.raw, ticks));
        let events = begin + seq![BusEvent::Read(first)];
        assert(events.drop_first() =~= seq![BusEvent::Written, BusEvent::Read(first)]);
        assert(events.drop_first().drop_first() =~= seq![BusEvent::Read(first)]);
        assert(seq![BusEvent::Read(first)].drop_first() =~= Seq::<BusEvent>::empty());
        assert(bus_run(idle, Seq::<BusEvent>::empty()).1 =~= Seq::<BusPlan>::empty());
        assert(bus_run(reading, seq![BusEvent::Read(first)]).1 =~= seq![ticks]);
        assert(bus_run(asking, seq![BusEvent::Written, BusEvent::Read(first)]).1 =~= seq![
            BusPlan::Read(STATUS_READ_BYTES),
            ticks
        ]);
    } else {
        assert(p.len() == 8);
        assert(first@ =~= p.subrange(0, first@.len() as int));
        assert(first@.len() < 8);
        lemma_position_status_partial(id, lo, hi, first@);
        let partial = BusModel { raw: first@, ..reading };
        assert(bus_step(reading, BusEvent::Read(first)) == (
            partial.pending,
            partial.raw,
            BusPlan::Read(STATUS_READ_BYTES),
        ));
        lemma_position_status_complete(id, lo, hi, first@, second@);
        assert(bus_step(partial, BusEvent::Read(second)) == (idle.pending, idle.raw, ticks));
        let tail = seq![BusEvent::Read(first), BusEvent::Read(second)];
        let events = begin + tail;
        assert(events.drop_first() =~= seq![BusEvent::Written] + tail);
        assert((seq![BusEvent::Written] + tail).drop_first() =~= tail);
        assert(tail.drop_first() =~= seq![BusEvent::Read(second)]);
        assert(seq![BusEvent::Read(second)].drop_first() =~= Seq::<BusEvent>::empty());
        assert(bus_run(idle, Seq::<BusEvent>::empty()).1 =~= Seq::<BusPlan>::empty());
        assert(bus_run(partial, seq![BusEvent::Read(second)]).1 =~= seq![ticks]);
        assert(bus_run(reading, tail).1 =~= seq![BusPlan::Read(STATUS_READ_BYTES), ticks]);
        assert(bus_run(asking, seq![BusEvent::Written] + tail).1 =~= seq![
            BusPlan::Read(STATUS_READ_BYTES),
            BusPlan::Read(STATUS_READ_BYTES),
            ticks
        ]);
    }
}

/// What a chunk of status bytes did to a status read.
enum Absorbed {
    Failed(FeetechError),
    Complete(Vec<u8>),
    Incomplete,
}

/// Whether a motor in `table` already has this name or this servo id.
fn find_conflict(table: &Vec<(String, u8)>, name: &str, id: u8) -> (conflict: bool)
    ensures
        conflict <==> exists|k: int|
            0 <= k < table@.len() && (table_view(table@)[k].0 == name@ || table_view(table@)[k].1
                == id),
{
    let mut k: usize = 0;
    while k < table.len()
        invariant
            k <= table@.len(),
            forall|q: int|
                0 <= q < k ==> table_view(table@)[q].0 != name@ && table_view(table@)[q].1 != id,
        decreases table@.len() - k,
    {
        if compare_names(table[k].0.as_str(), name) == NameOrder::Same || table[k].1 == id {
            assert(table_view(table@)[k as int].0 == name@ || table_view(table@)[k as int].1 == id);
            return true;
        }
        k = k + 1;
    }
    false
}

/// Inserts a motor with a new name and a new id at its place in name order.
fn insert_motor(table: &mut Vec<(String, u8)>, name: String, id: u8)
    requires
        sorted_by_name(table_view(old(table)@)),
        distinct_motors(table_view(old(table)@)),
        forall|k: int|
            0 <= k < old(table)@.len() ==> table_view(old(table)@)[k].0 != name@ && table_view(
                old(table)@,
            )[k].1 != id,
    ensures
        final(table)@.len() == old(table)@.len() + 1,
        sorted_by_name(table_view(final(table)@)),
        distinct_motors(table_view(final(table)@)),
        forall|x: (Seq<char>, u8)|
            #[trigger] table_view(final(table)@).contains(x) <==> table_view(old(table)@).contains(x)
                || x == (name@, id),
{
    let ghost t = table_view(table@);
    let mut p: usize = 0;
    while p < table.len() && compare_names(table[p].0.as_str(), name.as_str()) == NameOrder::Before
        invariant
            p <= table@.len(),
            t == table_view(table@),
            p > 0 ==> name_lt(t[p - 1].0, name@),
        decreases table@.len() - p,
    {
        p = p + 1;
    }
    proof {
        if p < t.len() {
            lemma_name_lt_total(t[p as int].0, name@);
        }
    }
    table.insert(p, (name, id));
    proof {
        assert(table_view(table@) =~= t.insert(p as int, (name@, id)));
        lemma_insert_sorted(t, p as int, (name@, id));
    }
}

#[verifier::spinoff_prover]
#[verifier::rlimit(40)]
proof fn lemma_insert_sorted(t: Seq<(Seq<char>, u8)>, p: int, x: (Seq<char>, u8))
    requires
        0 <= p <= t.len(),
        sorted_by_name(t),
        distinct_motors(t),
        forall|k: int| 0 <= k < t.len() ==> t[k].0 != x.0 && t[k].1 != x.1,
        p > 0 ==> name_lt(t[p - 1].0, x.0),
        p < t.len() ==> name_lt(x.0, t[p].0),
    ensures
        sorted_by_name(t.insert(p, x)),
        distinct_motors(t.insert(p, x)),
        forall|y: (Seq<char>, u8)| #[trigger] t.insert(p, x).contains(y) <==> t.contains(y) || y == x,
{
    let t2 = t.insert(p, x);
    assert forall|q: int| 0 <= q < t2.len() - 1 implies name_lt(#[trigger] t2[q].0, t2[q + 1].0) by {
        if q + 1 < p {
            assert(t2[q] == t[q] && t2[q + 1] == t[q + 1]);
        } else if q + 1 == p {
        } else if q == p {
        } else {
            assert(t2[q] == t[q - 1] && t2[q + 1] == t[q]);
        }
    }
    assert forall|a: int, b: int|
        0 <= a < t2.len() && 0 <= b < t2.len() && a != b implies #[trigger] t2[a].0
        != #[trigger] t2[b].0 && t2[a].1 != t2[b].1 by {
        if a != p && b != p {
            let a0 = if a < p { a } else { a - 1 };
            let b0 = if b < p { b } else { b - 1 };
            assert(t2[a] == t[a0] && t2[b] == t[b0]);
        } else if a == p {
            let b0 = if b < p { b } else { b - 1 };
            assert(t2[b] == t[b0]);
        } else {
            let a0 = if a < p { a } else { a - 1 };
            assert(t2[a] == t[a0]);
        }
    }
    assert forall|y: (Seq<char>, u8)| #[trigger] t2.contains(y) <==> t.contains(y) || y == x by {
        if t2.contains(y) {
            let q = choose|q: int| 0 <= q < t2.len() && t2[q] == y;
            if q < p {
                assert(t[q] == y);
            } else if q > p {
                assert(t[q - 1] == y);
            }
        }
        if t.contains(y) {
            let q = choose|q: int| 0 <= q < t.len() && t[q] == y;
            if q < p {
                assert(t2[q] == y);
            } else {
                assert(t2[q + 1] == y);
            }
        }
        if y == x {
            assert(t2[p] == y);
        }
    }
}

/// Feetech protocol-0 bus used by the SO-ARM STS3215 family.
pub struct FeetechBus<T> {
    serial: T,
    motors: Vec<(String, u8)>,
    pending: BusPending,
    raw: Vec<u8>,
}

impl<T> FeetechBus<T> {
    /// The motor table, ordered by name.
    pub closed spec fn motors(&self) -> Seq<(Seq<char>, u8)> {
        table_view(self.motors@)
    }

    pub closed spec fn session(&self) -> T {
        self.serial
    }

    /// No two motors share a name or an id, and the table is ordered by name.
    pub open spec fn table_wf(&self) -> bool {
        &&& sorted_by_name(self.motors())
        &&& distinct_motors(self.motors())
    }

    pub closed spec fn model(&self) -> BusModel {
        BusModel { motors: self.motors(), pending: self.pending, raw: self.raw@ }
    }

    /// The table is well formed, pending torque work names a motor of the table, and the
    /// status bytes kept never exceed the protocol limit.
    pub open spec fn wf(&self) -> bool {
        &&& self.table_wf()
        &&& self.model().motors == self.motors()
        &&& (self.model().pending matches BusPending::Torque { index, .. } ==> index
            < self.motors().len())
        &&& self.model().raw.len() <= MAX_STATUS_BYTES
    }

    /// Builds the bus; every motor needs its own name and its own servo id, and a bus needs
    /// at least one motor.
    pub fn new(serial: T, motors: Vec<(String, u8)>) -> (result: Result<Self, FeetechError>)
        ensures
            has_duplicate_motor(motors@) <==> result matches Err(FeetechError::DuplicateMotor),
            !has_duplicate_motor(motors@) && motors@.len() == 0 <==> result == Err::<
                Self,
                FeetechError,
            >(FeetechError::Packet("a bus needs at least one motor")),
            result is Ok <==> motors@.len() > 0 && !has_duplicate_motor(motors@),
            result matches Ok(bus) ==> {
                &&& bus.wf()
                &&& bus.model().pending == BusPending::Idle
                &&& same_motors(bus.motors(), motors@)
                &&& bus.session() == serial
            },
    {
        let mut table: Vec<(String, u8)> = Vec::new();
        let mut i: usize = 0;
        while i < motors.len()
            invariant
                i <= motors@.len(),
                table@.len() == i,
                sorted_by_name(table_view(table@)),
                distinct_motors(table_view(table@)),
                forall|j: int|
                    0 <= j < i ==> table_view(table@).contains(motor_view(#[trigger] motors@[j])),
                forall|x: (Seq<char>, u8)|
                    #[trigger] table_view(table@).contains(x) ==> exists|j: int|
                        0 <= j < i && x == motor_view(motors@[j]),
                !has_duplicate_motor(motors@.subrange(0, i as int)),
            decreases motors@.len() - i,
        {
            let ghost before = table_view(table@);
            let id = motors[i].1;
            if find_conflict(&table, motors[i].0.as_str(), id) {
                proof {
                    let k = choose|k: int|
                        0 <= k < before.len() && (before[k].0 == motors@[i as int].0@ || before[k].1
                            == id);
                    assert(before.contains(before[k]));
                    let j = choose|j: int| 0 <= j < i && before[k] == motor_view(motors@[j]);
                    assert(motors@[j].0@ == motors@[i as int].0@ || motors@[j].1 == motors@[i as int].1);
                    assert(has_duplicate_motor(motors@));
                }
                return Err(FeetechError::DuplicateMotor);
            }
            insert_motor(&mut table, motors[i].0.clone(), id);
            proof {
                let after = table_view(table@);
                assert(motors@.subrange(0, i + 1).subrange(0, i as int) =~= motors@.subrange(
                    0,
                    i as int,
                ));
                assert forall|a: int, b: int|
                    0 <= a < b < i + 1 implies !(#[trigger] motors@.subrange(0, i + 1)[a].0@
                    == #[trigger] motors@.subrange(0, i + 1)[b].0@ || motors@.subrange(0, i + 1)[a].1
                    == motors@.subrange(0, i + 1)[b].1) by {
                    if b == i {
                        assert(before.contains(motor_view(motors@[a])));
                    } else {
                        assert(motors@.subrange(0, i as int)[a] == motors@[a]);
                        assert(motors@.subrange(0, i as int)[b] == motors@[b]);
                    }
                }
                assert forall|j: int| 0 <= j < i + 1 implies after.contains(
                    motor_view(#[trigger] motors@[j]),
                ) by {
                    if j < i {
                        assert(before.contains(motor_view(motors@[j])));
                    }
                }
                assert forall|x: (Seq<char>, u8)| #[trigger] after.contains(x) implies exists|j: int|
                    0 <= j < i + 1 && x == motor_view(motors@[j]) by {
                    if x != motor_view(motors@[i as int]) {
                        assert(before.contains(x));
                    }
                }
            }
            i = i + 1;
        }
        proof {
            assert(motors@.subrange(0, i as int) =~= motors@);
        }
        if table.len() == 0 {
            return Err(FeetechError::Packet("a bus needs at least one motor"));
        }
        let bus = FeetechBus { serial, motors: table, pending: BusPending::Idle, raw: Vec::new() };
        assert(bus.motors() == table_view(table@));
        assert(bus.table_wf());
        assert(same_motors(bus.motors(), motors@));
        Ok(bus)
    }

    /// The serial session, for the owner to perform the requested work.
    pub fn serial_mut(&mut self) -> (serial: &mut T)
        ensures
            *serial == old(self).session(),
            final(self).session() == *final(serial),
            final(self).model() == old(self).model(),
            final(self).motors() == old(self).motors(),
    {
        &mut self.serial
    }

    /// The servo id of the motor named `motor`, if the table has one.
    fn find_motor(&self, motor: &str) -> (id: Option<u8>)
        requires
            self.table_wf(),
        ensures
            id == motor_id_of(self.motors(), motor@),
    {
        let ghost t = self.motors();
        let mut k: usize = 0;
        while k < self.motors.len()
            invariant
                k <= t.len(),
                t == self.motors(),
                t.len() == self.motors@.len(),
                distinct_motors(t),
                forall|q: int| 0 <= q < k ==> t[q].0 != motor@,
            decreases t.len() - k,
        {
            if compare_names(self.motors[k].0.as_str(), motor) == NameOrder::Same {
                proof {
                    assert(t[k as int].0 == motor@);
                    let c = choose|c: int| 0 <= c < t.len() && #[trigger] t[c].0 == motor@;
                    assert(c == k);
                }
                return Some(self.motors[k].1);
            }
            k = k + 1;
        }
        None
    }

    /// The servo id of the motor named `motor`.
    pub fn motor_id(&self, motor: &str) -> (result: Result<u8, FeetechError>)
        requires
            self.table_wf(),
        ensures
            match motor_id_of(self.motors(), motor@) {
                Some(id) => result == Ok::<u8, FeetechError>(id),
                None => result matches Err(FeetechError::UnknownMotor(name)) && name@ == motor@,
            },
    {
        match self.find_motor(motor) {
            Some(id) => Ok(id),
            None => Err(FeetechError::UnknownMotor(motor.to_owned())),
        }
    }

    /// The parameters of the goal sync-write: the goal register, two bytes per motor, then
    /// the id and little-endian ticks of each goal.
    fn goal_parameters(&self, goals: &Vec<(String, u16)>) -> (result: Result<Vec<u8>, FeetechError>)
        requires
            self.table_wf(),
            goals@.len() <= 83,
        ensures
            match (result, goal_entries(self.motors(), goals@)) {
                (Ok(p), Ok(e)) => p@ == seq![GOAL_POSITION, 2u8] + e,
                (Err(e), Err(f)) => e == f,
                _ => false,
            },
    {
        let ghost t = self.motors();
        let mut parameters: Vec<u8> = Vec::with_capacity(2 + 3 * goals.len());
        parameters.push(GOAL_POSITION);
        parameters.push(2);
        let ghost mut done: Seq<u8> = Seq::empty();
        let mut i: usize = 0;
        assert(goals@.skip(0) =~= goals@);
        while i < goals.len()
            invariant
                i <= goals@.len(),
                t == self.motors(),
                self.table_wf(),
                parameters@ == seq![GOAL_POSITION, 2u8] + done,
                goal_entries(t, goals@) == match goal_entries(t, goals@.skip(i as int)) {
                    Ok(rest) => Ok(done + rest),
                    Err(e) => Err::<Seq<u8>, FeetechError>(e),
                },
            decreases goals@.len() - i,
        {
            let ghost tail = goals@.skip(i as int);
            assert(tail[0] == goals@[i as int]);
            assert(tail.drop_first() =~= goals@.skip(i + 1));
            let ticks = goals[i].1;
            match self.find_motor(goals[i].0.as_str()) {
                None => {
                    return Err(FeetechError::UnknownMotor(goals[i].0.clone()));
                },
                Some(id) => {
                    proof {
                        assert((ticks as u8) == ticks % 256) by (bit_vector);
                        assert(((ticks >> 8u16) as u8) == ticks / 256) by (bit_vector);
                    }
                    parameters.push(id);
                    parameters.push(ticks as u8);
                    parameters.push((ticks >> 8) as u8);
                    proof {
                        let entry = seq![id, (ticks % 256) as u8, (ticks / 256) as u8];
                        match goal_entries(t, goals@.skip(i + 1)) {
                            Ok(rest) => {
                                assert(done + (entry + rest) =~= (done + entry) + rest);
                            },
                            Err(e) => {},
                        }
                        done = done + entry;
                        assert(parameters@ =~= seq![GOAL_POSITION, 2u8] + done);
                    }
                },
            }
            i = i + 1;
        }
        proof {
            assert(goals@.skip(goals@.len() as int) =~= Seq::<(String, u16)>::empty());
            assert(done + Seq::<u8>::empty() =~= done);
        }
        Ok(parameters)
    }

    /// Adds a chunk of bytes to the status read in progress.
    fn absorb(&mut self, chunk: &Vec<u8>) -> (absorbed: Absorbed)
        requires
            old(self).raw@.len() <= MAX_STATUS_BYTES,
        ensures
            final(self).serial == old(self).serial,
            final(self).motors == old(self).motors,
            final(self).pending == old(self).pending,
            final(self).raw@.len() <= MAX_STATUS_BYTES,
            match (absorbed, status_progress(old(self).raw@, chunk@)) {
                (Absorbed::Failed(e), StatusProgress::Failed(f)) => e == f,
                (Absorbed::Complete(v), StatusProgress::Complete(c)) => v@ == c,
                (Absorbed::Incomplete, StatusProgress::Incomplete(r)) => final(self).raw@ == r,
                _ => false,
            },
    {
        if chunk.len() == 0 {
            return Absorbed::Failed(FeetechError::Packet("serial read ended before a status packet"));
        }
        let ghost before = self.raw@;
        let mut i: usize = 0;
        while i < chunk.len()
            invariant
                i <= chunk@.len(),
                self.raw@ == before + chunk@.subrange(0, i as int),
                self.serial == old(self).serial,
                self.motors == old(self).motors,
                self.pending == old(self).pending,
            decreases chunk@.len() - i,
        {
            self.raw.push(chunk[i]);
            i = i + 1;
            assert(self.raw@ =~= before + chunk@.subrange(0, i as int));
        }
        assert(chunk@.subrange(0, chunk@.len() as int) =~= chunk@);
        if self.raw.len() >= 4 {
            let total = self.raw[3] as usize + 4;
            if self.raw.len() >= total {
                let mut complete: Vec<u8> = Vec::with_capacity(total);
                let mut j: usize = 0;
                while j < total
                    invariant
                        j <= total <= self.raw@.len(),
                        complete@ == self.raw@.subrange(0, j as int),
                    decreases total - j,
                {
                    complete.push(self.raw[j]);
                    j = j + 1;
                    assert(complete@ =~= self.raw@.subrange(0, j as int));
                }
                self.raw = Vec::new();
                return Absorbed::Complete(complete);
            }
        }
        if self.raw.len() > MAX_STATUS_BYTES {
            self.raw = Vec::new();
            return Absorbed::Failed(FeetechError::Packet("status packet exceeds protocol limit"));
        }
        Absorbed::Incomplete
    }

    /// The torque write of the motor at `index` in name order.
    fn torque_write(&self, index: usize, enabled: bool) -> (bytes: Vec<u8>)
        requires
            index < self.motors@.len(),
        ensures
            bytes@ == torque_packet(self.motors()[index as int].1, enabled),
    {
        let value: u8 = if enabled { 1 } else { 0 };
        let parameters: [u8; 2] = [TORQUE_ENABLE, value];
        let bytes = instruction_packet(self.motors[index].1, WRITE, &parameters);
        assert(parameters@ =~= seq![TORQUE_ENABLE, if enabled { 1u8 } else { 0u8 }]);
        bytes
    }

    /// Takes the owner's report and says what to do next, following `bus_step`.
    pub fn step(&mut self, event: BusEvent) -> (action: BusAction)
        requires
            old(self).wf(),
            event matches BusEvent::Begin(BusRequest::WriteGoal(goals)) ==> goals@.len() <= 83,
        ensures
            final(self).wf(),
            final(self).session() == old(self).session(),
            final(self).motors() == old(self).motors(),
            ({
                let (pending, raw, plan) = bus_step(old(self).model(), event);
                &&& final(self).model().pending == pending
                &&& final(self).model().raw == raw
                &&& action_is(action, plan)
            }),
    {
        let pending = self.pending;
        self.pending = BusPending::Idle;
        match event {
            BusEvent::Begin(BusRequest::SetTorque(enabled)) => {
                self.raw = Vec::new();
                if self.motors.len() == 0 {
                    return BusAction::Done(Ok(BusReply::Unit));
                }
                self.pending = BusPending::Torque { index: 0, enabled, reading: false };
                BusAction::Write(self.torque_write(0, enabled))
            },
            BusEvent::Begin(BusRequest::ReadPosition(name)) => {
                self.raw = Vec::new();
                match self.find_motor(name.as_str()) {
                    None => BusAction::Done(Err(FeetechError::UnknownMotor(name))),
                    Some(id) => {
                        let parameters: [u8; 2] = [PRESENT_POSITION, 2];
                        assert(parameters@ =~= seq![PRESENT_POSITION, 2u8]);
                        self.pending = BusPending::Position { id, reading: false };
                        BusAction::Write(instruction_packet(id, READ, &parameters))
                    },
                }
            },
            BusEvent::Begin(BusRequest::WriteGoal(goals)) => {
                self.raw = Vec::new();
                if goals.len() == 0 {
                    return BusAction::Done(Ok(BusReply::Unit));
                }
                match self.goal_parameters(&goals) {
                    Err(e) => BusAction::Done(Err(e)),
                    Ok(parameters) => {
                        proof {
                            lemma_goal_entries_len(self.motors(), goals@);
                        }
                        self.pending = BusPending::Goal;
                        BusAction::Write(
                            instruction_packet(BROADCAST_ID, SYNC_WRITE, parameters.as_slice()),
                        )
                    },
                }
            },
            BusEvent::Written => {
                self.raw = Vec::new();
                match pending {
                    BusPending::Torque { index, enabled, reading: false } => {
                        self.pending = BusPending::Torque { index, enabled, reading: true };
                        BusAction::Read(STATUS_READ_BYTES)
                    },
                    BusPending::Position { id, reading: false } => {
                        self.pending = BusPending::Position { id, reading: true };
                        BusAction::Read(STATUS_READ_BYTES)
                    },
                    BusPending::Goal => BusAction::Done(Ok(BusReply::Unit)),
                    _ => BusAction::Done(
                        Err(FeetechError::Packet("transport event does not answer the pending request")),
                    ),
                }
            },
            BusEvent::Read(chunk) => match pending {
                BusPending::Torque { index, enabled, reading: true } => match self.absorb(&chunk) {
                    Absorbed::Failed(e) => {
                        self.raw = Vec::new();
                        BusAction::Done(Err(e))
                    },
                    Absorbed::Incomplete => {
                        self.pending = pending;
                        BusAction::Read(STATUS_READ_BYTES)
                    },
                    Absorbed::Complete(status) => {
                        self.raw = Vec::new();
                        match parse_status(status.as_slice(), self.motors[index].1) {
                            Err(e) => BusAction::Done(Err(e)),
                            Ok(_) => {
                                if index < self.motors.len() - 1 {
                                    self.pending = BusPending::Torque {
                                        index: index + 1,
                                        enabled,
                                        reading: false,
                                    };
                                    BusAction::Write(self.torque_write(index + 1, enabled))
                                } else {
                                    BusAction::Done(Ok(BusReply::Unit))
                                }
                            },
                        }
                    },
                },
                BusPending::Position { id, reading: true } => match self.absorb(&chunk) {
                    Absorbed::Failed(e) => {
                        self.raw = Vec::new();
                        BusAction::Done(Err(e))
                    },
                    Absorbed::Incomplete => {
                        self.pending = pending;
                        BusAction::Read(STATUS_READ_BYTES)
                    },
                    Absorbed::Complete(status) => {
                        self.raw = Vec::new();
                        match parse_status(status.as_slice(), id) {
                            Err(e) => BusAction::Done(Err(e)),
                            Ok((_, parameters)) => {
                                if parameters.len() != 2 {
                                    return BusAction::Done(
                                        Err(FeetechError::Packet("position status has unexpected data length")),
                                    );
                                }
                                let ticks = parameters[0] as u16 + (parameters[1] as u16) * 256;
                                BusAction::Done(Ok(BusReply::Ticks(ticks)))
                            },
                        }
                    },
                },
                _ => {
                    self.raw = Vec::new();
                    BusAction::Done(
                        Err(FeetechError::Packet("transport event does not answer the pending request")),
                    )
                },
            },
            BusEvent::Failed(e) => {
                self.raw = Vec::new();
                if pending == BusPending::Idle {
                    return BusAction::Done(
                        Err(FeetechError::Packet("transport event does not answer the pending request")),
                    );
                }
                BusAction::Done(Err(e))
            },
        }
    }

    pub fn into_serial(self) -> (serial: T)
        ensures
            serial == self.session(),
    {
        self.serial
    }
}

} // verus!
