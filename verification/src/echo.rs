//! Echo messages that measure the round trip through the router, and the
//! bookkeeping of the partitions that send and receive them.

use vstd::prelude::*;

verus! {

/// Echo message
#[derive(Debug, Clone, Copy, PartialEq, Eq, Structural)]
pub struct Echo {
    /// A sequence number.
    pub sequence: u32,
    /// The time at which the message has been created, in microseconds.
    pub when_us: u64,
}

/// The sending side of an echo client: it numbers its requests from one.
#[derive(Debug, Clone, Copy, PartialEq, Eq, Structural)]
pub struct EchoSender {
    /// The number of requests made so far.
    pub sent: u32,
}

impl EchoSender {
    /// A sender that has made no request.
    pub fn new() -> (s: Self)
        ensures
            s.sent == 0,
    {
        EchoSender { sent: 0 }
    }

    /// The next request, made at `now_us`: it carries the next sequence
    /// number and the time.
    pub fn next_request(&mut self, now_us: u64) -> (e: Echo)
        requires
            old(self).sent < u32::MAX,
        ensures
            final(self).sent == old(self).sent + 1,
            e == (Echo { sequence: (old(self).sent + 1) as u32, when_us: now_us }),
    {
        self.sent = self.sent + 1;
        Echo { sequence: self.sent, when_us: now_us }
    }
}

/// The receiving side of an echo client: it reports each reply once, with
/// its round-trip time.
#[derive(Debug, Clone, Copy, PartialEq, Eq, Structural)]
pub struct EchoReceiver {
    /// The last sequence number counted.
    pub last: u32,
}

impl EchoReceiver {
    /// A receiver that has counted no reply.
    pub fn new() -> (r: Self)
        ensures
            r.last == 0,
    {
        EchoReceiver { last: 0 }
    }

    /// Takes a reply read from a sampling port at `now_us`.
    ///
    /// A reply with a sequence number beyond the last one counted is new: it
    /// becomes the last one and its round-trip time is returned. Any other
    /// reply is a repetition of the sampled value and gives `None`.
    pub fn on_sampled_reply(&mut self, reply: Echo, now_us: u64) -> (rtt: Option<u64>)
        requires
            reply.sequence > old(self).last ==> reply.when_us <= now_us,
        ensures
            reply.sequence > old(self).last ==> final(self).last == reply.sequence && rtt == Some(
                (now_us - reply.when_us) as u64,
            ),
            reply.sequence <= old(self).last ==> *final(self) == *old(self) && rtt is None,
    {
        if reply.sequence > self.last {
            self.last = reply.sequence;
            Some(now_us - reply.when_us)
        } else {
            None
        }
    }

    /// Takes a reply read from a queuing port at `now_us`.
    ///
    /// A reply with sequence number one restarts the count. A reply beyond
    /// the count advances it by one and its round-trip time is returned; any
    /// other reply is a duplicate and gives `None`.
    pub fn on_queued_reply(&mut self, reply: Echo, now_us: u64) -> (rtt: Option<u64>)
        requires
            (if reply.sequence == 1 {
                0
            } else {
                old(self).last
            }) < reply.sequence ==> reply.when_us <= now_us,
        ensures
            ({
                let base: u32 = if reply.sequence == 1 {
                    0
                } else {
                    old(self).last
                };
                &&& reply.sequence > base ==> final(self).last == base + 1 && rtt == Some(
                    (now_us - reply.when_us) as u64,
                )
                &&& reply.sequence <= base ==> final(self).last == base && rtt is None
            }),
    {
        if reply.sequence == 1 {
            self.last = 0;
        }
        if reply.sequence > self.last {
            self.last = self.last + 1;
            Some(now_us - reply.when_us)
        } else {
            None
        }
    }
}

} // verus!
