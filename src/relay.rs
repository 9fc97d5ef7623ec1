//! The decisions of the relay loop. The loop itself, which talks to the
//! radio, sleeps and takes the lock, hands each decision its inputs: the
//! shared state, a received packet, the elapsed time.
use crate::protocol::{decode_spec, decode_stream, le_bytes, RocketData, DATA_STREAM_SIZE};
use crate::store::{sample_for, Channel, Command, Data};
use vstd::prelude::*;

verus! {

/// Least time between two heartbeats, in milliseconds.
pub const HEARTBEAT_INTERVAL_MS: u64 = 2000;

/// Pause at the end of each iteration, in milliseconds, that lets the request
/// side take the lock.
pub const LOOP_PAUSE_MS: u64 = 50;

/// Bound handed to the link's resynchronisation after a failed transfer.
pub const RESYNC_TIMEOUT: usize = 10;

/// Transmit power set when the link is opened, in dBm.
pub const TRANSMIT_POWER_DBM: u8 = 14;

/// Opcode of the `test` command frame.
pub const TEST_OPCODE: u8 = 2;

/// The frame that a command is sent as, or `None` for a name the vehicle does
/// not know.
pub open spec fn command_frame_spec(cmd: Command) -> Option<Seq<u8>> {
    if cmd.name@ == "test"@ {
        Some(seq![TEST_OPCODE] + le_bytes(cmd.arg))
    } else {
        None
    }
}

/// Builds the 5-byte frame for a command: its opcode, then its argument
/// little-endian. Unknown names give `None` and are not sent.
pub fn command_frame(cmd: &Command) -> (r: Option<[u8; 5]>)
    ensures
        r is Some <==> command_frame_spec(*cmd) is Some,
        r matches Some(b) ==> command_frame_spec(*cmd) == Some(b@),
{
    if crate::store::same_text(cmd.name.as_str(), "test") {
        let a = cmd.arg;
        let b: [u8; 5] = [TEST_OPCODE, a as u8, (a >> 8u32) as u8, (a >> 16u32) as u8, (a >> 24u32) as u8];
        assert(b@ =~= seq![TEST_OPCODE] + le_bytes(a));
        Some(b)
    } else {
        None
    }
}

/// The heartbeat pattern.
pub fn heartbeat_frame() -> (r: [u8; 5])
    ensures
        r@ == seq![1u8, 1u8, 1u8, 1u8, 1u8],
{
    let b: [u8; 5] = [1u8, 1u8, 1u8, 1u8, 1u8];
    assert(b@ =~= seq![1u8, 1u8, 1u8, 1u8, 1u8]);
    b
}

/// Start of an iteration, under the lock: `None` when the relay must stop,
/// else the queued commands, oldest first, which leave the queue.
pub fn start_cycle(data: &mut Data) -> (r: Option<Vec<Command>>)
    ensures
        r is None <==> !old(data).is_alive,
        r is None ==> *final(data) == *old(data),
        r matches Some(cmds) ==> {
            &&& cmds@ == old(data).cmds@
            &&& final(data).cmds@.len() == 0
            &&& *final(data) == (Data { cmds: final(data).cmds, ..*old(data) })
        },
{
    if !data.is_alive {
        None
    } else {
        Some(data.drain())
    }
}

/// What became of one received packet.
#[derive(Clone, Copy, Debug, PartialEq, Eq, Structural)]
pub enum Ingest {
    /// Nothing arrived this iteration.
    Nothing,
    /// The packet had this length instead of a frame's.
    WrongLength(usize),
    /// The packet decoded to this report, which was appended to the store.
    Recorded(RocketData),
}

/// Handles a received packet under the lock: an empty packet is skipped, one
/// of the wrong length is dropped, and a frame is decoded and appended to
/// every channel.
pub fn handle_packet(data: &mut Data, packet: &Vec<u8>) -> (r: Ingest)
    ensures
        packet@.len() == 0 ==> r == Ingest::Nothing,
        packet@.len() != 0 && packet@.len() != DATA_STREAM_SIZE ==> r == Ingest::WrongLength(
            packet@.len() as usize,
        ),
        packet@.len() != DATA_STREAM_SIZE ==> *final(data) == *old(data),
        packet@.len() == DATA_STREAM_SIZE ==> {
            &&& r == Ingest::Recorded(decode_spec(packet@))
            &&& forall|c: Channel| #[trigger]
                final(data).channel(c) == old(data).channel(c).push(
                    sample_for(decode_spec(packet@), c),
                )
            &&& final(data).is_alive == old(data).is_alive
            &&& final(data).do_quit == old(data).do_quit
            &&& final(data).cmds == old(data).cmds
        },
{
    let n = packet.len();
    if n == 0 {
        return Ingest::Nothing;
    }
    if n != DATA_STREAM_SIZE {
        return Ingest::WrongLength(n);
    }
    let p = packet;
    let buf: [u8; DATA_STREAM_SIZE] = [
        p[0], p[1], p[2], p[3], p[4], p[5], p[6], p[7], p[8], p[9],
        p[10], p[11], p[12], p[13], p[14], p[15], p[16], p[17], p[18], p[19],
        p[20], p[21], p[22], p[23], p[24], p[25], p[26], p[27], p[28], p[29],
    ];
    assert(buf@ =~= packet@);
    match decode_stream(buf) {
        Ok(frame) => {
            data.record(&frame);
            Ingest::Recorded(frame)
        },
        Err(_) => Ingest::Nothing,
    }
}

/// Whether a heartbeat is owed at `now` when the last one went out at `last`.
pub open spec fn heartbeat_due(last: u64, now: u64) -> bool {
    now >= last + HEARTBEAT_INTERVAL_MS
}

/// The heartbeat timer of the relay loop.
pub struct Heartbeat {
    /// When the last heartbeat was sent (or the loop started), in
    /// milliseconds of loop time.
    pub last_ms: u64,
}

impl Heartbeat {
    /// A timer whose interval starts at `now_ms`.
    pub fn new(now_ms: u64) -> (r: Heartbeat)
        ensures
            r.last_ms == now_ms,
    {
        Heartbeat { last_ms: now_ms }
    }

    /// Decides at `now_ms` whether to send a heartbeat, and restarts the
    /// interval when it does. Whether the send then succeeds does not matter.
    pub fn tick(&mut self, now_ms: u64) -> (r: bool)
        ensures
            r == heartbeat_due(old(self).last_ms, now_ms),
            final(self).last_ms == (if r { now_ms } else { old(self).last_ms }),
    {
        if now_ms >= self.last_ms && now_ms - self.last_ms >= HEARTBEAT_INTERVAL_MS {
            self.last_ms = now_ms;
            true
        } else {
            false
        }
    }
}

/// The timer's value after ticks at each of the first `n` of `times`, from
/// `start`.
pub open spec fn last_after(start: u64, times: Seq<u64>, n: nat) -> u64
    decreases n,
{
    if n == 0 {
        start
    } else {
        let prev = last_after(start, times, (n - 1) as nat);
        if heartbeat_due(prev, times[n - 1]) {
            times[n - 1]
        } else {
            prev
        }
    }
}

/// Whether the tick at `times[i]` sends a heartbeat.
pub open spec fn sent_at(start: u64, times: Seq<u64>, i: int) -> bool {
    heartbeat_due(last_after(start, times, i as nat), times[i])
}

proof fn lemma_timer_holds(start: u64, times: Seq<u64>, i: int, k: nat)
    requires
        0 <= i < k <= times.len(),
        sent_at(start, times, i),
    ensures
        last_after(start, times, k) >= times[i],
    decreases k,
{
    if k > i + 1 {
        lemma_timer_holds(start, times, i, (k - 1) as nat);
    }
}

/// Two heartbeats lie at least the interval apart, however many ticks come
/// between them and whatever times they are given.
pub proof fn lemma_heartbeat_spacing(start: u64, times: Seq<u64>, i: int, j: int)
    requires
        0 <= i < j < times.len(),
        sent_at(start, times, i),
        sent_at(start, times, j),
    ensures
        times[j] >= times[i] + HEARTBEAT_INTERVAL_MS,
{
    lemma_timer_holds(start, times, i, j as nat);
}

} // verus!
