//! Streaming synthesis protocol: synthesized audio is written to the host's
//! sink in bounded chunks, and the host's action flags are polled after every
//! write.
//!
//! The host may set several flags at once. An abort ends the stream at once
//! and is a success, not an error; rate and volume changes ask the engine to
//! re-read the host's values; a skip request is acknowledged without moving
//! the stream. A re-read rate or volume reaches only audio synthesized after
//! the signal — bytes already produced or written are never re-shaped. The
//! decisions live here; performing the writes and reading the flags is the
//! host loop's job, which feeds both back into this state machine.

use vstd::prelude::*;

verus! {

/// Largest number of audio bytes offered to the sink in one write.
pub const MAX_CHUNK_BYTES: usize = 4096;

/// Action flag bit: stop streaming at once.
pub const ACTION_ABORT: u32 = 1;

/// Action flag bit: skip within the stream (acknowledged, not performed).
pub const ACTION_SKIP: u32 = 2;

/// Action flag bit: the host's rate changed; re-read and re-apply it.
pub const ACTION_RATE: u32 = 4;

/// Action flag bit: the host's volume changed; re-read and re-apply it.
pub const ACTION_VOLUME: u32 = 8;

pub open spec fn abort_requested(flags: u32) -> bool {
    flags & ACTION_ABORT != 0
}

pub open spec fn skip_requested(flags: u32) -> bool {
    flags & ACTION_SKIP != 0
}

pub open spec fn rate_change_requested(flags: u32) -> bool {
    flags & ACTION_RATE != 0
}

pub open spec fn volume_change_requested(flags: u32) -> bool {
    flags & ACTION_VOLUME != 0
}

/// Where one range's stream stands.
#[derive(Clone, Copy, Debug, PartialEq, Eq, Structural)]
pub enum StreamPhase {
    /// Audio remains and the host has not aborted.
    Streaming,
    /// All audio was handed to the sink.
    Finished,
    /// The host aborted; the rest of the audio is discarded.
    Aborted,
}

/// Progress of one range's audio through the sink.
#[derive(Clone, Copy, Debug, PartialEq, Eq, Structural)]
pub struct StreamProgress {
    /// Bytes of audio this range synthesized.
    pub total: usize,
    /// Bytes the sink has consumed so far.
    pub sent: usize,
    /// Whether the stream still runs.
    pub phase: StreamPhase,
}

/// A stream is well formed when it never claims to have sent more than it
/// has, and is finished only once everything was sent.
pub open spec fn stream_wf(s: StreamProgress) -> bool {
    &&& s.sent <= s.total
    &&& (s.phase is Finished ==> s.sent == s.total)
}

/// What one sink round does: offer the next chunk, advance by what the sink
/// consumed (`consumed`, capped by the offer), finish when everything was
/// sent, and otherwise honour an abort flag. A stream that is not running is
/// left untouched. Flags are polled only after a write, so an abort arriving
/// with the final chunk is overtaken by the finish.
pub open spec fn stream_step(s: StreamProgress, consumed: usize, flags: u32) -> StreamProgress {
    if !(s.phase is Streaming) {
        s
    } else {
        let offer = if s.total - s.sent < MAX_CHUNK_BYTES {
            s.total - s.sent
        } else {
            MAX_CHUNK_BYTES as int
        };
        let step = if consumed <= offer {
            consumed as int
        } else {
            offer
        };
        let sent = s.sent + step;
        StreamProgress {
            total: s.total,
            sent: sent as usize,
            phase: if sent == s.total {
                StreamPhase::Finished
            } else if abort_requested(flags) {
                StreamPhase::Aborted
            } else {
                StreamPhase::Streaming
            },
        }
    }
}

/// The stream after a whole list of sink rounds, each a pair of bytes
/// consumed and flags observed.
pub open spec fn stream_run(s: StreamProgress, rounds: Seq<(usize, u32)>) -> StreamProgress
    decreases rounds.len(),
{
    if rounds.len() == 0 {
        s
    } else {
        stream_run(stream_step(s, rounds[0].0, rounds[0].1), rounds.drop_first())
    }
}

impl StreamProgress {
    /// A fresh stream for `total` bytes of synthesized audio.
    pub fn new(total: usize) -> (r: StreamProgress)
        ensures
            r == (StreamProgress { total, sent: 0, phase: StreamPhase::Streaming }),
            stream_wf(r),
    {
        StreamProgress { total, sent: 0, phase: StreamPhase::Streaming }
    }

    /// How many bytes to offer the sink next: what remains, capped at the
    /// engine's maximum write unit.
    pub fn offer_len(&self) -> (r: usize)
        requires
            stream_wf(*self),
        ensures
            r == if self.total - self.sent < MAX_CHUNK_BYTES {
                (self.total - self.sent) as int
            } else {
                MAX_CHUNK_BYTES as int
            },
    {
        let remaining = self.total - self.sent;
        if remaining < MAX_CHUNK_BYTES {
            remaining
        } else {
            MAX_CHUNK_BYTES
        }
    }

    /// One sink round: the sink consumed `consumed` bytes of the chunk just
    /// offered, and the host's flags were then polled.
    pub fn round(&mut self, consumed: usize, flags: u32)
        requires
            stream_wf(*old(self)),
            old(self).phase is Streaming,
            consumed <= old(self).total - old(self).sent,
            consumed <= MAX_CHUNK_BYTES,
        ensures
            *final(self) == stream_step(*old(self), consumed, flags),
            stream_wf(*final(self)),
    {
        self.sent = self.sent + consumed;
        if self.sent == self.total {
            self.phase = StreamPhase::Finished;
        } else if flags & ACTION_ABORT != 0 {
            self.phase = StreamPhase::Aborted;
        }
    }
}

impl StreamProgress {
    /// Whether the stream still runs.
    pub fn is_streaming(&self) -> (r: bool)
        ensures
            r == (self.phase is Streaming),
    {
        match self.phase {
            StreamPhase::Streaming => true,
            _ => false,
        }
    }
}

/// Runs one range's whole stream against a recorded script of sink rounds:
/// each entry is the bytes the sink consumed of the offered chunk and the
/// flags polled after the write. The result is exactly the state machine run
/// over the script; rounds after the stream stops change nothing.
pub fn drive_stream(total: usize, rounds: &Vec<(usize, u32)>) -> (r: StreamProgress)
    ensures
        r == stream_run(
            StreamProgress { total, sent: 0, phase: StreamPhase::Streaming },
            rounds@,
        ),
        stream_wf(r),
{
    let ghost start = StreamProgress { total, sent: 0, phase: StreamPhase::Streaming };
    let mut s = StreamProgress::new(total);
    let mut i: usize = 0;
    proof {
        assert(rounds@.skip(0) =~= rounds@);
    }
    while i < rounds.len() && s.is_streaming()
        invariant
            0 <= i <= rounds@.len(),
            stream_wf(s),
            stream_run(start, rounds@) == stream_run(s, rounds@.skip(i as int)),
        decreases rounds@.len() - i,
    {
        let (consumed_raw, flags) = rounds[i];
        let offer = s.offer_len();
        let consumed = if consumed_raw < offer {
            consumed_raw
        } else {
            offer
        };
        let ghost before = s;
        proof {
            assert(stream_step(before, consumed_raw, flags) == stream_step(
                before,
                consumed,
                flags,
            ));
            assert(rounds@.skip(i as int)[0] == rounds@[i as int]);
            assert(rounds@.skip(i as int).drop_first() =~= rounds@.skip(i + 1));
        }
        s.round(consumed, flags);
        i = i + 1;
    }
    proof {
        if i < rounds@.len() {
            lemma_stopped_stream_stays(s, rounds@.skip(i as int));
        } else {
            assert(rounds@.skip(rounds@.len() as int) =~= Seq::<(usize, u32)>::empty());
        }
    }
    s
}

/// Whether the call moves on to the next range after one range's stream
/// stopped: only when the range finished. An aborted range ends the whole
/// call — the remaining ranges' audio is discarded and the call succeeds,
/// since abort is host-directed early termination, not an error.
pub fn continue_after(phase: StreamPhase) -> (r: bool)
    ensures
        r == (phase is Finished),
{
    match phase {
        StreamPhase::Finished => true,
        _ => false,
    }
}

/// What the engine does besides writing when flags arrive and the stream
/// keeps running: re-read rate or volume, and acknowledge a skip.
#[derive(Clone, Copy, Debug, PartialEq, Eq, Structural)]
pub struct ControlUpdate {
    pub reread_rate: bool,
    pub reread_volume: bool,
    pub skip_acknowledged: bool,
}

/// Decodes the flags observed by a round that left the stream running: which
/// host values to re-read and whether a skip was acknowledged. An aborted or
/// finished stream reads nothing further.
pub fn control_update(progress: &StreamProgress, flags: u32) -> (r: ControlUpdate)
    ensures
        r.reread_rate == (progress.phase is Streaming && rate_change_requested(flags)),
        r.reread_volume == (progress.phase is Streaming && volume_change_requested(flags)),
        r.skip_acknowledged == (progress.phase is Streaming && skip_requested(flags)),
{
    let live = match progress.phase {
        StreamPhase::Streaming => true,
        _ => false,
    };
    ControlUpdate {
        reread_rate: live && (flags & ACTION_RATE != 0),
        reread_volume: live && (flags & ACTION_VOLUME != 0),
        skip_acknowledged: live && (flags & ACTION_SKIP != 0),
    }
}

/// A stream that stopped (aborted or finished) is never moved by further sink
/// rounds.
pub proof fn lemma_stopped_stream_stays(s: StreamProgress, rounds: Seq<(usize, u32)>)
    requires
        !(s.phase is Streaming),
    ensures
        stream_run(s, rounds) == s,
    decreases rounds.len(),
{
    if rounds.len() > 0 {
        lemma_stopped_stream_stays(s, rounds.drop_first());
    }
}

/// Abort law: once a round observes the abort flag, no later round writes
/// another byte, and the stream ends in the aborted phase.
pub proof fn lemma_abort_stops_writes(
    s: StreamProgress,
    consumed: usize,
    flags: u32,
    later: Seq<(usize, u32)>,
)
    requires
        stream_wf(s),
        s.phase is Streaming,
        abort_requested(flags),
    ensures
        ({
            let stopped = stream_step(s, consumed, flags);
            !(stopped.phase is Finished) ==> {
                &&& stopped.phase is Aborted
                &&& stream_run(stopped, later) == stopped
            }
        }),
{
    let stopped = stream_step(s, consumed, flags);
    if !(stopped.phase is Finished) {
        lemma_stopped_stream_stays(stopped, later);
    }
}

} // verus!
