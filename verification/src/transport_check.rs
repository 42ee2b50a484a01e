//! Sequence and timestamp checkers for the transport data plane.

use std::collections::HashMap;
use vstd::prelude::*;

use crate::transport::TransportError;
use crate::types::{Packet, StreamId};

verus! {

broadcast use vstd::std_specs::hash::group_hash_axioms;

/// Deadline / sequence policy of the transport.
#[derive(Debug, Clone, PartialEq)]
pub struct TransportDeadlineConfig {
    pub version: String,
    pub id: String,
    pub max_latency_ns: u64,
    pub allow_reorder: bool,
    pub start_sequence: u64,
}

/// `x + 1`, wrapping to 0 at the top of the range.
pub open spec fn spec_next_seq(x: u64) -> u64 {
    if x == u64::MAX {
        0
    } else {
        (x + 1) as u64
    }
}

fn next_seq(x: u64) -> (r: u64)
    ensures
        r == spec_next_seq(x),
{
    if x == u64::MAX {
        0
    } else {
        x + 1
    }
}

/// Abstract state of a [`SequenceChecker`].
pub struct SequenceCheckerView {
    /// Next expected sequence of each stream seen so far.
    pub next: Map<u32, u64>,
    /// Expected sequence of a stream that has no entry.
    pub start: u64,
    pub allow_reorder: bool,
}

impl SequenceCheckerView {
    /// The sequence the checker expects next on `stream`.
    pub open spec fn expected(self, stream: u32) -> u64 {
        if self.next.contains_key(stream) {
            self.next[stream]
        } else {
            self.start
        }
    }

    /// Outcome of checking sequence `got` on `stream`: the new state and the result.
    pub open spec fn after_check(self, stream: u32, got: u64) -> (SequenceCheckerView, Result<(), TransportError>) {
        let expected = self.expected(stream);
        if got == expected {
            (SequenceCheckerView { next: self.next.insert(stream, spec_next_seq(expected)), ..self }, Ok(()))
        } else if self.allow_reorder && got > expected {
            (
                SequenceCheckerView { next: self.next.insert(stream, spec_next_seq(got)), ..self },
                Err(TransportError::SequenceGap { expected, got }),
            )
        } else {
            (self, Err(TransportError::SequenceGap { expected, got }))
        }
    }
}

/// Tracks expected sequence per stream.
#[derive(Debug, Clone)]
pub struct SequenceChecker {
    next: HashMap<u32, u64>,
    start: u64,
    allow_reorder: bool,
}

impl View for SequenceChecker {
    type V = SequenceCheckerView;

    closed spec fn view(&self) -> SequenceCheckerView {
        SequenceCheckerView { next: self.next@, start: self.start, allow_reorder: self.allow_reorder }
    }
}

impl SequenceChecker {
    pub fn new(start_sequence: u64, allow_reorder: bool) -> (c: Self)
        ensures
            c@.next == Map::<u32, u64>::empty(),
            c@.start == start_sequence,
            c@.allow_reorder == allow_reorder,
    {
        SequenceChecker { next: HashMap::new(), start: start_sequence, allow_reorder }
    }

    pub fn from_config(cfg: &TransportDeadlineConfig) -> (c: Self)
        ensures
            c@.next == Map::<u32, u64>::empty(),
            c@.start == cfg.start_sequence,
            c@.allow_reorder == cfg.allow_reorder,
    {
        Self::new(cfg.start_sequence, cfg.allow_reorder)
    }

    /// Start tracking a stream at the start sequence (keeps an existing entry).
    pub fn register_stream(&mut self, stream_id: StreamId)
        ensures
            final(self)@.start == old(self)@.start,
            final(self)@.allow_reorder == old(self)@.allow_reorder,
            final(self)@.next == if old(self)@.next.contains_key(stream_id.0) {
                old(self)@.next
            } else {
                old(self)@.next.insert(stream_id.0, old(self)@.start)
            },
    {
        if !self.next.contains_key(&stream_id.0) {
            self.next.insert(stream_id.0, self.start);
        }
    }

    pub fn unregister_stream(&mut self, stream_id: StreamId)
        ensures
            final(self)@.start == old(self)@.start,
            final(self)@.allow_reorder == old(self)@.allow_reorder,
            final(self)@.next == old(self)@.next.remove(stream_id.0),
    {
        self.next.remove(&stream_id.0);
    }

    fn expected(&self, stream: u32) -> (r: u64)
        ensures
            r == self@.expected(stream),
    {
        match self.next.get(&stream) {
            Some(v) => *v,
            None => self.start,
        }
    }

    pub fn check(&mut self, packet: &Packet) -> (r: Result<(), TransportError>)
        ensures
            (final(self)@, r) == old(self)@.after_check(packet.stream_id.0, packet.sequence.0),
    {
        let expected = self.expected(packet.stream_id.0);
        let got = packet.sequence.0;
        if got == expected {
            self.next.insert(packet.stream_id.0, next_seq(expected));
            return Ok(());
        }
        if self.allow_reorder && got > expected {
            // Gap: advance to got+1 and report gap for metrics callers.
            self.next.insert(packet.stream_id.0, next_seq(got));
            return Err(TransportError::SequenceGap { expected, got });
        }
        Err(TransportError::SequenceGap { expected, got })
    }

    /// The last sequence accepted on a stream (expected - 1, floored at 0).
    pub fn last_expected(&self, stream_id: StreamId) -> (r: u64)
        ensures
            r == if self@.expected(stream_id.0) == 0 {
                0
            } else {
                (self@.expected(stream_id.0) - 1) as u64
            },
    {
        self.expected(stream_id.0).saturating_sub(1)
    }

    /// After a detected loss, resync expected sequence to `next_seq`.
    pub fn resync(&mut self, stream_id: StreamId, next_seq: u64)
        ensures
            final(self)@.start == old(self)@.start,
            final(self)@.allow_reorder == old(self)@.allow_reorder,
            final(self)@.next == old(self)@.next.insert(stream_id.0, next_seq),
    {
        self.next.insert(stream_id.0, next_seq);
    }
}

/// Checks packet age against a receive-time reference and max latency.
#[derive(Debug, Clone)]
pub struct TimestampChecker {
    max_latency_ns: u64,
}

/// Age of a packet sent at `sent` and seen at `now` (0 if it appears to come from the future).
pub open spec fn spec_latency(now: u64, sent: u64) -> u64 {
    if now >= sent {
        (now - sent) as u64
    } else {
        0
    }
}

/// Outcome of the timestamp check.
pub open spec fn spec_timestamp_check(max_latency_ns: u64, sent: u64, now: u64) -> Result<(), TransportError> {
    let latency = spec_latency(now, sent);
    if latency > max_latency_ns {
        Err(TransportError::LatePacket { latency_ns: latency, max_ns: max_latency_ns })
    } else {
        Ok(())
    }
}

impl TimestampChecker {
    pub closed spec fn max_latency(&self) -> u64 {
        self.max_latency_ns
    }

    pub fn new(max_latency_ns: u64) -> (c: Self)
        ensures
            c.max_latency() == max_latency_ns,
    {
        TimestampChecker { max_latency_ns }
    }

    pub fn from_config(cfg: &TransportDeadlineConfig) -> (c: Self)
        ensures
            c.max_latency() == cfg.max_latency_ns,
    {
        Self::new(cfg.max_latency_ns)
    }

    /// `now_ns` is the simulation clock at receive time.
    pub fn check(&self, packet: &Packet, now_ns: u64) -> (r: Result<(), TransportError>)
        ensures
            r == spec_timestamp_check(self.max_latency(), packet.timestamp.0, now_ns),
    {
        let sent = packet.timestamp.0;
        let latency = now_ns.saturating_sub(sent);
        if latency > self.max_latency_ns {
            return Err(TransportError::LatePacket { latency_ns: latency, max_ns: self.max_latency_ns });
        }
        Ok(())
    }
}

/// Packets of a stream accepted one after another in order are each accepted,
/// and the checker then expects the following sequence.
pub proof fn law_in_order_accepted(c: SequenceCheckerView, stream: u32, got: u64)
    requires
        got == c.expected(stream),
    ensures
        c.after_check(stream, got).1 == Ok::<(), TransportError>(()),
        c.after_check(stream, got).0.expected(stream) == spec_next_seq(got),
{
}

/// After a resync to `s`, a packet carrying `s` is accepted.
pub proof fn law_resync_then_accept(c: SequenceCheckerView, stream: u32, s: u64)
    ensures
        (SequenceCheckerView { next: c.next.insert(stream, s), ..c }).after_check(stream, s).1
            == Ok::<(), TransportError>(()),
{
}

/// A refused packet leaves the checker unchanged unless reordering is allowed and
/// the packet jumps ahead.
pub proof fn law_rejected_keeps_state(c: SequenceCheckerView, stream: u32, got: u64)
    requires
        got != c.expected(stream),
        !(c.allow_reorder && got > c.expected(stream)),
    ensures
        c.after_check(stream, got).0 == c,
        c.after_check(stream, got).1 is Err,
{
}

/// With reordering allowed, a packet that jumps ahead of the expected
/// sequence is reported as a gap from the expected sequence to its own, and
/// the checker then expects the sequence right after the jumping packet on
/// that stream (wrapping to 0 at the top of the range), so that packet is
/// accepted next; no other stream's expectation moves.
pub proof fn law_reorder_jump_resyncs(c: SequenceCheckerView, stream: u32, got: u64, other: u32)
    requires
        c.allow_reorder,
        got > c.expected(stream),
        other != stream,
    ensures
        c.after_check(stream, got).1 == Err::<(), TransportError>(
            TransportError::SequenceGap { expected: c.expected(stream), got },
        ),
        got < u64::MAX ==> c.after_check(stream, got).0.expected(stream) == got + 1,
        got == u64::MAX ==> c.after_check(stream, got).0.expected(stream) == 0,
        got < u64::MAX ==> c.after_check(stream, got).0.after_check(stream, (got + 1) as u64).1 == Ok::<
            (),
            TransportError,
        >(()),
        c.after_check(stream, got).0.expected(other) == c.expected(other),
{
}

/// A packet meets its deadline exactly when it is seen no more than
/// `max_latency_ns` after its timestamp (a packet that seems to come from the
/// future is on time); a late one is refused with its age and the limit.
pub proof fn law_deadline(max_latency_ns: u64, sent: u64, now: u64)
    ensures
        spec_timestamp_check(max_latency_ns, sent, now) is Ok <==> now <= sent + max_latency_ns,
        now > sent + max_latency_ns ==> spec_timestamp_check(max_latency_ns, sent, now)
            == Err::<(), TransportError>(
            TransportError::LatePacket { latency_ns: (now - sent) as u64, max_ns: max_latency_ns },
        ),
{
}

} // verus!
