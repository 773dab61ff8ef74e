//! The creator/init synchronization protocol.
//!
//! The orchestrator and the init process share a duplex pipe and speak
//! a strictly ordered protocol: init announces itself with one alive
//! byte, receives the length-prefixed rootfs path, reports the
//! container PID, requests the pre-start hooks, is acknowledged, and
//! finally reports readiness to exec.  All integers travel
//! little-endian.  The orchestrator's side is a state machine that
//! rejects any byte out of order or out of range: a handshake step fed
//! before its turn is a protocol violation, never silently accepted.

use vstd::prelude::*;

verus! {

/// The init process's first message: it is alive.
pub const MSG_ALIVE: u8 = 0;

/// Init asks the orchestrator to run the pre-start hooks.
pub const MSG_REQ_PRESTART_HOOKS: u8 = 0xC1;

/// The orchestrator acknowledges the pre-start hooks.
pub const MSG_ACK_PRESTART_HOOKS: u8 = 0xC2;

/// Init is ready to exec the user command.
pub const MSG_READY_TO_EXEC: u8 = 0xC3;

/// The inherited descriptor numbers the init process finds its
/// channels on, and the environment variables that announce them.
pub const FD_EXEC_FIFO: i32 = 3;

pub const FD_INIT_PIPE: i32 = 4;

pub const FD_SPEC_FILE: i32 = 5;

pub const FD_LOG_PIPE: i32 = 6;

pub const FD_CONSOLE: i32 = 7;

/// A protocol violation on the synchronization pipe.
#[derive(Copy, Clone, Debug, PartialEq, Eq, Structural)]
pub enum ProtocolError {
    /// The byte read is not the one this step expects.
    UnexpectedByte,
    /// A later step's message arrived before its turn.
    OutOfOrder,
}

/// The little-endian bytes of a 64-bit integer.
pub open spec fn spec_u64_bytes(x: u64) -> Seq<u8> {
    seq![
        (x & 0xff) as u8,
        ((x >> 8) & 0xff) as u8,
        ((x >> 16) & 0xff) as u8,
        ((x >> 24) & 0xff) as u8,
        ((x >> 32) & 0xff) as u8,
        ((x >> 40) & 0xff) as u8,
        ((x >> 48) & 0xff) as u8,
        ((x >> 56) & 0xff) as u8,
    ]
}

/// The 64-bit integer eight little-endian bytes denote.
pub open spec fn spec_u64_from_bytes(b: Seq<u8>) -> u64
    recommends
        b.len() == 8,
{
    ((b[0] as u64) | (b[1] as u64) << 8 | (b[2] as u64) << 16 | (b[3] as u64) << 24 | (
    b[4] as u64) << 32 | (b[5] as u64) << 40 | (b[6] as u64) << 48 | (b[7] as u64) << 56) as u64
}

/// Encoding then decoding eight little-endian bytes returns the
/// original integer.
pub proof fn lemma_u64_le_round_trip(x: u64)
    ensures
        spec_u64_from_bytes(spec_u64_bytes(x)) == x,
{
    assert(((x & 0xff) as u8 as u64) | (((x >> 8) & 0xff) as u8 as u64) << 8 | (((x >> 16)
        & 0xff) as u8 as u64) << 16 | (((x >> 24) & 0xff) as u8 as u64) << 24 | (((x >> 32)
        & 0xff) as u8 as u64) << 32 | (((x >> 40) & 0xff) as u8 as u64) << 40 | (((x >> 48)
        & 0xff) as u8 as u64) << 48 | (((x >> 56) & 0xff) as u8 as u64) << 56 == x)
        by (bit_vector);
}

/// Encode a 64-bit integer as its eight little-endian bytes.
pub fn encode_u64_le(x: u64) -> (r: Vec<u8>)
    ensures
        r@ == spec_u64_bytes(x),
{
    proof {
        assert(x & 0xff < 256 && (x >> 8) & 0xff < 256 && (x >> 16) & 0xff < 256 && (x >> 24)
            & 0xff < 256 && (x >> 32) & 0xff < 256 && (x >> 40) & 0xff < 256 && (x >> 48) & 0xff
            < 256 && (x >> 56) & 0xff < 256) by (bit_vector);
    }
    let mut v: Vec<u8> = Vec::new();
    v.push((x & 0xff) as u8);
    v.push(((x >> 8) & 0xff) as u8);
    v.push(((x >> 16) & 0xff) as u8);
    v.push(((x >> 24) & 0xff) as u8);
    v.push(((x >> 32) & 0xff) as u8);
    v.push(((x >> 40) & 0xff) as u8);
    v.push(((x >> 48) & 0xff) as u8);
    v.push(((x >> 56) & 0xff) as u8);
    proof {
        assert(v@ =~= spec_u64_bytes(x));
    }
    v
}

/// Decode eight little-endian bytes into a 64-bit integer.
pub fn decode_u64_le(b: &Vec<u8>) -> (r: u64)
    requires
        b@.len() == 8,
    ensures
        r == spec_u64_from_bytes(b@),
{
    (b[0] as u64) | (b[1] as u64) << 8u64 | (b[2] as u64) << 16u64 | (b[3] as u64) << 24u64 | (
    b[4] as u64) << 32u64 | (b[5] as u64) << 40u64 | (b[6] as u64) << 48u64 | (b[7] as u64)
        << 56u64
}

/// The little-endian bytes of a 32-bit process id.
pub open spec fn spec_pid_bytes(x: i32) -> Seq<u8> {
    spec_u64_bytes((x as u32) as u64).take(4)
}

/// The process id four little-endian bytes denote.
pub open spec fn spec_pid_from_bytes(b: Seq<u8>) -> i32
    recommends
        b.len() == 4,
{
    ((b[0] as u32) | (b[1] as u32) << 8 | (b[2] as u32) << 16 | (b[3] as u32) << 24) as i32
}

/// Encoding then decoding a process id returns it unchanged.
pub proof fn lemma_pid_le_round_trip(x: i32)
    ensures
        spec_pid_from_bytes(spec_pid_bytes(x)) == x,
{
    let y = (x as u32) as u64;
    assert((((y & 0xff) as u8 as u32) | (((y >> 8) & 0xff) as u8 as u32) << 8 | (((y >> 16)
        & 0xff) as u8 as u32) << 16 | (((y >> 24) & 0xff) as u8 as u32) << 24) as i32 == (
    y as u32) as i32) by (bit_vector);
    assert((((x as u32) as u64) as u32) as i32 == x) by (bit_vector);
}

/// Encode a process id as its four little-endian bytes.
pub fn encode_pid_le(x: i32) -> (r: Vec<u8>)
    ensures
        r@ == spec_pid_bytes(x),
{
    let y: u64 = (x as u32) as u64;
    proof {
        assert(y & 0xff < 256 && (y >> 8) & 0xff < 256 && (y >> 16) & 0xff < 256 && (y >> 24)
            & 0xff < 256) by (bit_vector);
    }
    let mut v: Vec<u8> = Vec::new();
    v.push((y & 0xff) as u8);
    v.push(((y >> 8) & 0xff) as u8);
    v.push(((y >> 16) & 0xff) as u8);
    v.push(((y >> 24) & 0xff) as u8);
    proof {
        assert(v@ =~= spec_pid_bytes(x));
    }
    v
}

/// Decode four little-endian bytes into a process id.
pub fn decode_pid_le(b: &Vec<u8>) -> (r: i32)
    requires
        b@.len() == 4,
    ensures
        r == spec_pid_from_bytes(b@),
{
    let y: u32 = (b[0] as u32) | (b[1] as u32) << 8u32 | (b[2] as u32) << 16u32 | (b[3] as u32)
        << 24u32;
    proof {
        assert(y as i32 == ((b[0] as u32) | (b[1] as u32) << 8 | (b[2] as u32) << 16 | (
        b[3] as u32) << 24) as i32);
    }
    y as i32
}

/// Frame a payload for the pipe: its length as eight little-endian
/// bytes, then the payload itself.
pub fn encode_length_prefixed(payload: &Vec<u8>) -> (r: Vec<u8>)
    ensures
        r@.len() == 8 + payload@.len(),
        r@.take(8) == spec_u64_bytes(payload@.len() as u64),
        r@.skip(8) == payload@,
{
    let mut v = encode_u64_le(payload.len() as u64);
    let ghost pre = v@;
    v.extend_from_slice(payload.as_slice());
    proof {
        assert(v@.take(8) =~= pre);
        assert(v@.skip(8) =~= payload@);
    }
    v
}

/// Where the orchestrator stands in the handshake.
#[derive(Copy, Clone, Debug, PartialEq, Eq, Structural)]
pub enum OrchStage {
    /// Waiting for init's alive byte.
    AwaitAlive,
    /// Alive seen, rootfs path sent; waiting for the container PID.
    AwaitPid,
    /// PID received; waiting for the pre-start hook request.
    AwaitHookRequest,
    /// Hooks acknowledged; waiting for readiness to exec.
    AwaitReady,
    /// The handshake is complete.
    Done,
}

/// One message arriving at the orchestrator.
pub enum OrchEvent {
    AliveByte(u8),
    PidBytes,
    HookRequestByte(u8),
    ReadyByte(u8),
}

/// The orchestrator's transition relation: each stage accepts exactly
/// its own message with exactly its expected value; everything else is
/// a protocol violation.
pub open spec fn orch_step(stage: OrchStage, ev: OrchEvent) -> Result<OrchStage, ProtocolError> {
    match (stage, ev) {
        (OrchStage::AwaitAlive, OrchEvent::AliveByte(b)) => if b == MSG_ALIVE {
            Ok(OrchStage::AwaitPid)
        } else {
            Err(ProtocolError::UnexpectedByte)
        },
        (OrchStage::AwaitPid, OrchEvent::PidBytes) => Ok(OrchStage::AwaitHookRequest),
        (OrchStage::AwaitHookRequest, OrchEvent::HookRequestByte(b)) => if b
            == MSG_REQ_PRESTART_HOOKS {
            Ok(OrchStage::AwaitReady)
        } else {
            Err(ProtocolError::UnexpectedByte)
        },
        (OrchStage::AwaitReady, OrchEvent::ReadyByte(b)) => if b == MSG_READY_TO_EXEC {
            Ok(OrchStage::Done)
        } else {
            Err(ProtocolError::UnexpectedByte)
        },
        _ => Err(ProtocolError::OutOfOrder),
    }
}

/// The orchestrator's side of the handshake, as a checked state
/// machine.  An error leaves the stage unchanged; the orchestrator
/// aborts the creation on any error.
pub struct OrchHandshake {
    pub stage: OrchStage,
}

impl OrchHandshake {
    /// A fresh handshake awaits the alive byte.
    pub fn new() -> (r: Self)
        ensures
            r.stage == OrchStage::AwaitAlive,
    {
        OrchHandshake { stage: OrchStage::AwaitAlive }
    }

    /// Feed the single alive byte.
    pub fn on_alive_byte(&mut self, b: u8) -> (r: Result<(), ProtocolError>)
        ensures
            step_result(old(self).stage, OrchEvent::AliveByte(b), final(self).stage, r),
    {
        match orch_step_exec(self.stage, &OrchEvent::AliveByte(b)) {
            Ok(next) => {
                self.stage = next;
                Ok(())
            },
            Err(e) => Err(e),
        }
    }

    /// Feed the four PID bytes; any value is a valid PID.
    pub fn on_pid_bytes(&mut self, b: &Vec<u8>) -> (r: Result<i32, ProtocolError>)
        requires
            b@.len() == 4,
        ensures
            match r {
                Ok(pid) => orch_step(old(self).stage, OrchEvent::PidBytes) == Ok::<
                    OrchStage,
                    ProtocolError,
                >(final(self).stage) && pid == spec_pid_from_bytes(b@),
                Err(e) => orch_step(old(self).stage, OrchEvent::PidBytes) == Err::<
                    OrchStage,
                    ProtocolError,
                >(e) && final(self).stage == old(self).stage,
            },
    {
        match orch_step_exec(self.stage, &OrchEvent::PidBytes) {
            Ok(next) => {
                self.stage = next;
                Ok(decode_pid_le(b))
            },
            Err(e) => Err(e),
        }
    }

    /// Feed the pre-start hook request byte.
    pub fn on_hook_request_byte(&mut self, b: u8) -> (r: Result<(), ProtocolError>)
        ensures
            step_result(old(self).stage, OrchEvent::HookRequestByte(b), final(self).stage, r),
    {
        match orch_step_exec(self.stage, &OrchEvent::HookRequestByte(b)) {
            Ok(next) => {
                self.stage = next;
                Ok(())
            },
            Err(e) => Err(e),
        }
    }

    /// Feed the ready-to-exec byte.
    pub fn on_ready_byte(&mut self, b: u8) -> (r: Result<(), ProtocolError>)
        ensures
            step_result(old(self).stage, OrchEvent::ReadyByte(b), final(self).stage, r),
    {
        match orch_step_exec(self.stage, &OrchEvent::ReadyByte(b)) {
            Ok(next) => {
                self.stage = next;
                Ok(())
            },
            Err(e) => Err(e),
        }
    }
}

/// What one fed event did to the machine: a success moved it along the
/// transition relation, an error left it in place.
pub open spec fn step_result(
    before: OrchStage,
    ev: OrchEvent,
    after: OrchStage,
    r: Result<(), ProtocolError>,
) -> bool {
    match r {
        Ok(u) => orch_step(before, ev) == Ok::<OrchStage, ProtocolError>(after),
        Err(e) => orch_step(before, ev) == Err::<OrchStage, ProtocolError>(e) && after == before,
    }
}

/// The transition relation, executed.
fn orch_step_exec(stage: OrchStage, ev: &OrchEvent) -> (r: Result<OrchStage, ProtocolError>)
    ensures
        r == orch_step(stage, *ev),
{
    match (stage, ev) {
        (OrchStage::AwaitAlive, OrchEvent::AliveByte(b)) => {
            if *b == MSG_ALIVE {
                Ok(OrchStage::AwaitPid)
            } else {
                Err(ProtocolError::UnexpectedByte)
            }
        },
        (OrchStage::AwaitPid, OrchEvent::PidBytes) => Ok(OrchStage::AwaitHookRequest),
        (OrchStage::AwaitHookRequest, OrchEvent::HookRequestByte(b)) => {
            if *b == MSG_REQ_PRESTART_HOOKS {
                Ok(OrchStage::AwaitReady)
            } else {
                Err(ProtocolError::UnexpectedByte)
            }
        },
        (OrchStage::AwaitReady, OrchEvent::ReadyByte(b)) => {
            if *b == MSG_READY_TO_EXEC {
                Ok(OrchStage::Done)
            } else {
                Err(ProtocolError::UnexpectedByte)
            }
        },
        _ => Err(ProtocolError::OutOfOrder),
    }
}

/// The handshake is strictly ordered: at the initial stage, the bytes
/// of every later step are rejected as protocol violations, whatever
/// their values, and only the alive byte with its exact value is
/// accepted.
pub proof fn lemma_handshake_strictly_ordered(b: u8)
    ensures
        orch_step(OrchStage::AwaitAlive, OrchEvent::PidBytes) is Err,
        orch_step(OrchStage::AwaitAlive, OrchEvent::HookRequestByte(b)) is Err,
        orch_step(OrchStage::AwaitAlive, OrchEvent::ReadyByte(b)) is Err,
        b != MSG_ALIVE ==> orch_step(OrchStage::AwaitAlive, OrchEvent::AliveByte(b)) is Err,
        orch_step(OrchStage::AwaitAlive, OrchEvent::AliveByte(MSG_ALIVE)) == Ok::<
            OrchStage,
            ProtocolError,
        >(OrchStage::AwaitPid),
        orch_step(OrchStage::AwaitPid, OrchEvent::HookRequestByte(b)) is Err,
        orch_step(OrchStage::AwaitPid, OrchEvent::ReadyByte(b)) is Err,
        orch_step(OrchStage::AwaitHookRequest, OrchEvent::ReadyByte(b)) is Err,
{
}

/// Init's check of the orchestrator's acknowledgement: only the exact
/// acknowledgement byte lets setup continue.
pub fn check_prestart_ack(b: u8) -> (r: Result<(), ProtocolError>)
    ensures
        (r is Ok) <==> b == MSG_ACK_PRESTART_HOOKS,
        r matches Err(e) ==> e == ProtocolError::UnexpectedByte,
{
    if b == MSG_ACK_PRESTART_HOOKS {
        Ok(())
    } else {
        Err(ProtocolError::UnexpectedByte)
    }
}

} // verus!
