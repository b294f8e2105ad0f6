//! Telemetry links between the ESP32 senders and the receiving host:
//! message sequence numbers, loss detection and link statistics, and the
//! credentials of the MQTT sender.

use vstd::prelude::*;
use vstd::string::StringExecFns;

verus! {

/// `x + 1` modulo 2^32.
pub open spec fn wrapping_next(x: u32) -> u32 {
    if x < u32::MAX {
        (x + 1) as u32
    } else {
        0
    }
}

/// The sequence number of the message after `seq`; it wraps to zero.
pub fn next_sequence(seq: u32) -> (next: u32)
    ensures
        next == wrapping_next(seq),
{
    seq.wrapping_add(1)
}

/// Packets reported lost when `seq` arrives after `last`: none for the first
/// message, for the expected successor, or for a sender restarting at zero;
/// otherwise the size of the gap, or one when the sequence went backwards.
pub open spec fn lost_before(last: Option<u32>, seq: u32) -> Option<u32> {
    match last {
        None => None,
        Some(prev) => {
            let expected = wrapping_next(prev);
            if seq != expected && seq != 0 {
                Some(
                    if seq > expected {
                        (seq - expected) as u32
                    } else {
                        1
                    },
                )
            } else {
                None
            }
        },
    }
}

/// Number of packets between two statistics reports.
pub const STATS_INTERVAL: u64 = 100;

/// What the receiver has seen on the link.
pub struct LinkMonitor {
    last_seq: Option<u32>,
    packet_count: u64,
    error_count: u64,
}

impl LinkMonitor {
    /// Sequence number of the last message parsed.
    pub closed spec fn last_seq(&self) -> Option<u32> {
        self.last_seq
    }

    /// Packets received, whether they parsed or not.
    pub closed spec fn packets(&self) -> u64 {
        self.packet_count
    }

    /// Packets that did not parse.
    pub closed spec fn errors(&self) -> u64 {
        self.error_count
    }

    /// Nothing seen yet.
    pub fn new() -> (m: LinkMonitor)
        ensures
            m.last_seq() is None,
            m.packets() == 0,
            m.errors() == 0,
    {
        LinkMonitor { last_seq: None, packet_count: 0, error_count: 0 }
    }

    /// Counts a received packet.
    pub fn record_packet(&mut self)
        requires
            old(self).packets() < u64::MAX,
        ensures
            final(self).packets() == old(self).packets() + 1,
            final(self).errors() == old(self).errors(),
            final(self).last_seq() == old(self).last_seq(),
    {
        self.packet_count = self.packet_count + 1;
    }

    /// Counts a packet that did not parse.
    pub fn record_parse_error(&mut self)
        requires
            old(self).errors() < u64::MAX,
        ensures
            final(self).errors() == old(self).errors() + 1,
            final(self).packets() == old(self).packets(),
            final(self).last_seq() == old(self).last_seq(),
    {
        self.error_count = self.error_count + 1;
    }

    /// Takes note of a parsed message and says how many packets were lost before it.
    pub fn record_message(&mut self, seq: u32) -> (lost: Option<u32>)
        ensures
            lost == lost_before(old(self).last_seq(), seq),
            final(self).last_seq() == Some(seq),
            final(self).packets() == old(self).packets(),
            final(self).errors() == old(self).errors(),
    {
        let lost = match self.last_seq {
            None => None,
            Some(prev) => {
                let expected = prev.wrapping_add(1);
                if seq != expected && seq != 0 {
                    Some(
                        if seq > expected {
                            seq - expected
                        } else {
                            1
                        },
                    )
                } else {
                    None
                }
            },
        };
        self.last_seq = Some(seq);
        lost
    }

    /// Packets received so far.
    pub fn packet_count(&self) -> (n: u64)
        ensures
            n == self.packets(),
    {
        self.packet_count
    }

    /// Packets that did not parse so far.
    pub fn error_count(&self) -> (n: u64)
        ensures
            n == self.errors(),
    {
        self.error_count
    }

    /// Statistics are reported on every hundredth packet.
    pub fn stats_due(&self) -> (b: bool)
        ensures
            b == (self.packets() % STATS_INTERVAL == 0),
    {
        self.packet_count % STATS_INTERVAL == 0
    }
}

/// Loss detection: messages in order (including the wrap from `u32::MAX` to
/// zero) and a sender that restarts at zero are never reported as a loss; a
/// forward jump reports the number of skipped sequence numbers; a jump back
/// reports one.
pub proof fn lemma_loss_detection(prev: u32, seq: u32)
    ensures
        lost_before(None, seq) is None,
        lost_before(Some(prev), wrapping_next(prev)) is None,
        lost_before(Some(prev), 0) is None,
        seq > prev + 1 ==> lost_before(Some(prev), seq) == Some((seq - prev - 1) as u32),
        0 < seq <= prev && prev < u32::MAX ==> lost_before(Some(prev), seq) == Some(1u32),
{
}

/// A credential for the MQTT sender: an unset or empty value means none.
pub fn optional_credential(value: Option<&str>) -> (c: Option<String>)
    ensures
        match value {
            Some(s) if s@.len() > 0 => c matches Some(t) && t@ == s@,
            _ => c is None,
        },
{
    match value {
        Some(s) => {
            if s.is_empty() {
                None
            } else {
                Some(String::from_str(s))
            }
        },
        None => None,
    }
}

} // verus!
