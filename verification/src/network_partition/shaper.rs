//! Credit-based traffic shaper, roughly after IEEE 802.1Qav.
//!
//! The shaper decides if a queued message should be transmitted or not. A
//! queued message is transmitted only if the credit of the queue that holds
//! it is not negative. A queue corresponds to a virtual link. The credit of a
//! queue grows by its idle slope while it waits with frames queued, and
//! shrinks by its send slope while it transmits. The idle slopes of all
//! queues together never exceed the bandwidth of the port.

use crate::network_partition::error::Error;
use crate::time::Duration;
use crate::types::DataRate;
use vstd::prelude::*;

verus! {

/// The identifier of a queue of the shaper: its position among the queues.
#[derive(Debug, Default, Clone, Copy, PartialEq, Eq, Structural)]
pub struct QueueId(pub u32);

impl From<QueueId> for u32 {
    fn from(val: QueueId) -> (r: u32) {
        val.0
    }
}

impl vstd::std_specs::convert::FromSpecImpl<QueueId> for u32 {
    open spec fn obeys_from_spec() -> bool {
        true
    }

    open spec fn from_spec(v: QueueId) -> u32 {
        v.0
    }
}

impl From<u32> for QueueId {
    fn from(val: u32) -> (r: QueueId) {
        QueueId(val)
    }
}

impl vstd::std_specs::convert::FromSpecImpl<u32> for QueueId {
    open spec fn obeys_from_spec() -> bool {
        true
    }

    open spec fn from_spec(v: u32) -> QueueId {
        QueueId(v)
    }
}

/// A transmission of the network layer.
///
/// The transmission occurs for a frame from the queue `queue`, lasts for
/// `duration` and transmits `bits`.
#[derive(Debug, Clone, Copy)]
pub struct Transmission {
    /// The queue that performed or requested the transmission.
    queue: QueueId,
    /// The time it took to transmit the bits.
    duration: Duration,
    /// The amount of bits that were transmitted.
    bits: u64,
}

impl Transmission {
    /// The queue that performed or requested the transmission.
    pub closed spec fn queue(self) -> QueueId {
        self.queue
    }

    /// The time the transmission took.
    pub closed spec fn duration(self) -> Duration {
        self.duration
    }

    /// The number of bits transmitted.
    pub closed spec fn bits(self) -> u64 {
        self.bits
    }

    /// Creates a new transmission of `length` bytes.
    pub fn new(queue: QueueId, duration: Duration, length: u32) -> (t: Transmission)
        ensures
            t.queue() == queue,
            t.duration() == duration,
            t.bits() == length * 8,
    {
        Transmission { queue, duration, bits: (length as u64) * 8 }
    }

    /// A transmission of no queue, no time and no bits.
    pub fn default() -> (t: Transmission)
        ensures
            t.queue() == QueueId(0),
            t.duration()@ == 0,
            t.bits() == 0,
    {
        Transmission { queue: QueueId(0), duration: Duration::zero(), bits: 0 }
    }
}

/// The credit, in bits, that a slope of `slope` bit/s earns during `nanos`
/// nanoseconds, rounded down.
pub open spec fn credit_for(slope: u64, nanos: nat) -> int {
    (slope * nanos) / 1_000_000_000
}

/// An amount clipped to the largest `i128`, as a conversion to `i128` does.
pub open spec fn clip_i128(x: int) -> int {
    if x > i128::MAX {
        i128::MAX as int
    } else {
        x
    }
}

/// An amount clipped to the largest `u64`, as a conversion to `u64` does.
pub open spec fn clip_u64(x: int) -> int {
    if x > u64::MAX {
        u64::MAX as int
    } else {
        x
    }
}

/// Splitting the time into whole seconds and the rest splits the credit.
proof fn lemma_credit_split(slope: u64, secs: nat, sub: nat)
    requires
        sub < 1_000_000_000,
    ensures
        credit_for(slope, secs * 1_000_000_000 + sub) == slope * secs + (slope * sub)
            / 1_000_000_000,
        slope * secs <= u64::MAX * secs,
        (slope * sub) / 1_000_000_000 <= slope,
{
    let a = slope as int;
    assert(a * (secs * 1_000_000_000 + sub) == (a * secs) * 1_000_000_000 + a * sub)
        by (nonlinear_arith);
    vstd::arithmetic::div_mod::lemma_hoist_over_denominator(
        a * sub,
        a * secs,
        1_000_000_000,
    );
    assert(slope * secs <= u64::MAX * secs) by (nonlinear_arith)
        requires
            slope <= u64::MAX,
    ;
    assert((a * sub) / 1_000_000_000 <= a) by (nonlinear_arith)
        requires
            0 <= sub < 1_000_000_000,
            a >= 0,
    ;
}

/// The credit that `slope` earns during `d`.
fn credit_amount(slope: u64, d: &Duration) -> (c: u128)
    ensures
        c == credit_for(slope, d@),
{
    let secs = d.as_secs();
    let sub = d.subsec_nanos();
    proof {
        lemma_credit_split(slope, secs as nat, sub as nat);
        assert(d@ == secs * 1_000_000_000 + sub);
        assert(u64::MAX * secs <= u64::MAX * u64::MAX) by (nonlinear_arith)
            requires
                secs <= u64::MAX,
        ;
        assert(slope * sub <= u64::MAX * 1_000_000_000) by (nonlinear_arith)
            requires
                slope <= u64::MAX,
                sub < 1_000_000_000,
        ;
    }
    let whole: u128 = (slope as u128) * (secs as u128);
    let part: u128 = ((slope as u128) * (sub as u128)) / 1_000_000_000;
    whole + part
}

/// A queue managed by the shaper.
#[derive(Debug, Default, Clone, Copy, PartialEq, Eq, Structural)]
pub struct QueueStatus {
    /// Queue id.
    pub id: QueueId,
    /// Idle slope in bits per second: the rate at which the credit grows
    /// while the queue waits. It is also the bandwidth share of the queue.
    pub idle_slope: u64,
    /// Current credit of the queue.
    pub credit: i128,
    /// True if this queue is currently transmitting.
    pub transmit: bool,
    /// The rate in bits per second by which the credit shrinks while the
    /// queue is transmitting.
    pub send_slope: u64,
    /// Number of queued bits.
    pub backlog: u64,
}

impl QueueStatus {
    /// The credit that `restore` adds during `nanos`: the credit earned by
    /// the idle slope, clipped to the `i128` range.
    pub open spec fn restore_gain(self, nanos: nat) -> int {
        clip_i128(credit_for(self.idle_slope, nanos))
    }

    /// The queue after `restore` for `nanos` nanoseconds, and the credit it
    /// reports.
    pub open spec fn restored(self, nanos: nat) -> (QueueStatus, u64) {
        if !self.transmit && self.backlog > 0 {
            (
                QueueStatus { credit: (self.credit + self.restore_gain(nanos)) as i128, ..self },
                clip_u64(credit_for(self.idle_slope, nanos)) as u64,
            )
        } else if self.backlog == 0 && !self.transmit {
            (QueueStatus { credit: 0, ..self }, 0)
        } else {
            (self, 0)
        }
    }

    /// `restore` for `nanos` nanoseconds would overflow the credit.
    pub open spec fn restore_overflows(self, nanos: nat) -> bool {
        !self.transmit && self.backlog > 0 && self.credit + self.restore_gain(nanos)
            > i128::MAX
    }

    /// The credit that `consume` takes during `nanos`: the credit worth of
    /// the send slope, clipped to the `i128` range.
    pub open spec fn consume_cost(self, nanos: nat) -> int {
        clip_i128(credit_for(self.send_slope, nanos))
    }

    /// The queue after consuming `bits` during `nanos` nanoseconds, where it
    /// is allowed to transmit.
    pub open spec fn consumed(self, bits: u64, nanos: nat) -> QueueStatus {
        QueueStatus {
            credit: (self.credit - self.consume_cost(nanos)) as i128,
            backlog: (self.backlog - bits) as u64,
            ..self
        }
    }

    /// Creates a new queue with no credit, no backlog and a share of
    /// `idle_slope` out of `port_transmit_rate`.
    pub fn new(id: QueueId, idle_slope: u64, port_transmit_rate: u64) -> (q: QueueStatus)
        requires
            idle_slope <= port_transmit_rate,
        ensures
            q == (QueueStatus {
                id,
                idle_slope,
                credit: 0,
                transmit: false,
                send_slope: (port_transmit_rate - idle_slope) as u64,
                backlog: 0,
            }),
    {
        QueueStatus {
            id,
            idle_slope,
            credit: 0,
            transmit: false,
            send_slope: port_transmit_rate - idle_slope,
            backlog: 0,
        }
    }

    /// If the queue is allowed to begin the transmission of a frame: its
    /// credit is not negative.
    pub fn transmit_allowed(&self) -> (b: bool)
        ensures
            b <==> self.credit >= 0,
    {
        self.credit >= 0
    }

    /// Consumes the credit for transmitting `bits` during `duration`.
    ///
    /// Returns `TransmitNotAllowed` and leaves the queue as it is where the
    /// credit is negative.
    pub fn consume(&mut self, bits: &u64, duration: &Duration) -> (r: Result<u64, Error>)
        requires
            old(self).credit >= 0 ==> *bits <= old(self).backlog,
        ensures
            old(self).credit < 0 ==> *final(self) == *old(self) && r
                == Err::<u64, Error>(Error::TransmitNotAllowed),
            old(self).credit >= 0 ==> *final(self) == old(self).consumed(*bits, duration@) && r
                == Ok::<u64, Error>((old(self).consume_cost(duration@) % 0x1_0000_0000_0000_0000) as u64),
    {
        if !self.transmit_allowed() {
            return Err(Error::TransmitNotAllowed);
        }
        let amount = credit_amount(self.send_slope, duration);
        let consumed: i128 = if amount > (i128::MAX as u128) {
            i128::MAX
        } else {
            amount as i128
        };
        self.credit = self.credit - consumed;
        self.backlog = self.backlog - *bits;
        Ok(((consumed as u128) % 0x1_0000_0000_0000_0000) as u64)
    }

    /// Increases the credit while the queue waits with queued frames and does
    /// not transmit. A queue with nothing queued that does not transmit loses
    /// its credit.
    ///
    /// Returns the credit earned.
    pub fn restore(&mut self, time: &Duration) -> (r: Result<u64, Error>)
        requires
            !old(self).restore_overflows(time@),
        ensures
            *final(self) == old(self).restored(time@).0,
            r == Ok::<u64, Error>(old(self).restored(time@).1),
    {
        if !self.transmit && self.backlog > 0 {
            let amount = credit_amount(self.idle_slope, time);
            let gain: i128 = if amount > (i128::MAX as u128) {
                i128::MAX
            } else {
                amount as i128
            };
            self.credit = self.credit + gain;
            let reported: u64 = if amount > (u64::MAX as u128) {
                u64::MAX
            } else {
                amount as u64
            };
            Ok(reported)
        } else {
            if self.backlog == 0 && !self.transmit {
                self.credit = 0;
            }
            Ok(0)
        }
    }

    /// Adds `bits` to the backlog.
    ///
    /// Returns the new backlog, or `bits` and leaves the queue as it is where
    /// the backlog would overflow.
    pub fn submit(&mut self, bits: u64) -> (r: Result<u64, u64>)
        ensures
            old(self).backlog + bits <= u64::MAX ==> *final(self) == (QueueStatus {
                backlog: (old(self).backlog + bits) as u64,
                ..*old(self)
            }) && r == Ok::<u64, u64>((old(self).backlog + bits) as u64),
            old(self).backlog + bits > u64::MAX ==> *final(self) == *old(self) && r == Err::<
                u64,
                u64,
            >(bits),
    {
        match self.backlog.checked_add(bits) {
            Some(b) => {
                self.backlog = b;
                Ok(b)
            },
            None => Err(bits),
        }
    }
}


/// The bandwidth that the queues of `qs` have reserved: the sum of their
/// idle slopes.
pub open spec fn reserved(qs: Seq<QueueStatus>) -> int
    decreases qs.len(),
{
    if qs.len() == 0 {
        0
    } else {
        reserved(qs.drop_last()) + qs.last().idle_slope
    }
}

/// A queue that has frames queued and may transmit.
pub open spec fn ready(q: QueueStatus) -> bool {
    q.credit >= 0 && q.backlog > 0
}

/// The position of the first queue of `qs` that is ready, or `qs.len()`.
pub open spec fn first_ready(qs: Seq<QueueStatus>) -> int
    decreases qs.len(),
{
    if qs.len() == 0 {
        0
    } else if ready(qs[0]) {
        0
    } else {
        1 + first_ready(qs.drop_first())
    }
}

/// `first_ready` is the position before which no queue is ready and at
/// which, if it is a position of `qs`, a queue is ready.
proof fn lemma_first_ready(qs: Seq<QueueStatus>, i: int)
    requires
        0 <= i <= qs.len(),
        forall|j: int| 0 <= j < i ==> !ready(#[trigger] qs[j]),
        i == qs.len() || ready(qs[i]),
    ensures
        first_ready(qs) == i,
    decreases i,
{
    if i > 0 {
        let rest = qs.drop_first();
        assert forall|j: int| 0 <= j < i - 1 implies !ready(#[trigger] rest[j]) by {
            assert(rest[j] == qs[j + 1]);
        }
        lemma_first_ready(rest, i - 1);
    }
}

/// The queue at `first_ready` is ready, and none before it is.
proof fn lemma_first_ready_is_first(qs: Seq<QueueStatus>)
    ensures
        0 <= first_ready(qs) <= qs.len(),
        first_ready(qs) < qs.len() ==> ready(qs[first_ready(qs)]),
        forall|j: int| 0 <= j < first_ready(qs) ==> !ready(#[trigger] qs[j]),
    decreases qs.len(),
{
    if qs.len() > 0 && !ready(qs[0]) {
        let rest = qs.drop_first();
        lemma_first_ready_is_first(rest);
        assert forall|j: int| 0 <= j < first_ready(qs) implies !ready(#[trigger] qs[j]) by {
            if j > 0 {
                assert(qs[j] == rest[j - 1]);
            }
        }
    }
}

/// The queue after a request to transmit `bits` more bits: the backlog
/// grows, unless it would overflow.
pub open spec fn submitted(q: QueueStatus, bits: u64) -> QueueStatus {
    if q.backlog + bits <= u64::MAX {
        QueueStatus { backlog: (q.backlog + bits) as u64, ..q }
    } else {
        q
    }
}

/// The queue `q` refuses to record transmission `t`: `t` is its own and
/// its credit is negative.
pub open spec fn blocks(q: QueueStatus, t: Transmission) -> bool {
    q.id == t.queue() && q.credit < 0
}

/// Some queue before position `i` refuses to record `t`.
pub open spec fn blocked_before(qs: Seq<QueueStatus>, t: Transmission, i: int) -> bool {
    exists|j: int| 0 <= j < i && #[trigger] blocks(qs[j], t)
}

/// A queue after recording transmission `t`: the transmitting queue stops
/// transmitting and, where it may, pays for the transmission; every other
/// queue is restored for the time the transmission took.
pub open spec fn recorded(q: QueueStatus, t: Transmission) -> QueueStatus {
    if q.id == t.queue() {
        let q1 = QueueStatus { transmit: false, ..q };
        if q.credit < 0 {
            q1
        } else {
            q1.consumed(t.bits(), t.duration()@)
        }
    } else {
        q.restored(t.duration()@).0
    }
}

/// Recording `t` at queue `q` would overflow its credit or its backlog.
pub open spec fn record_overflows(q: QueueStatus, t: Transmission) -> bool {
    if q.id == t.queue() {
        q.credit >= 0 && t.bits() > q.backlog
    } else {
        q.restore_overflows(t.duration()@)
    }
}

/// A traffic shaper.
pub trait Shaper: Sized {
    /// The state of the shaper is consistent.
    spec fn shaper_inv(&self) -> bool;

    /// Requests that the shaper allows the queue to perform a transmission.
    fn request_transmission(&mut self, transmission: &Transmission) -> (r: Result<(), Error>)
        requires
            old(self).shaper_inv(),
        ensures
            final(self).shaper_inv(),
    ;

    /// Recording `transmission` overflows no counter of the shaper.
    spec fn can_record(&self, transmission: Transmission) -> bool;

    /// Notifies the shaper, that a transmission took place.
    fn record_transmission(&mut self, transmission: &Transmission) -> (r: Result<(), Error>)
        requires
            old(self).shaper_inv(),
            old(self).can_record(*transmission),
        ensures
            final(self).shaper_inv(),
    ;

    /// Restoring credit for `restore` overflows no counter of the shaper.
    spec fn can_restore(&self, restore: Duration) -> bool;

    /// Restores credit to all queues.
    /// Should be called if no transmissions were recorded during a timeframe
    /// of length restore.
    fn restore_all(&mut self, restore: Duration) -> (r: Result<(), Error>)
        requires
            old(self).shaper_inv(),
            old(self).can_restore(restore),
        ensures
            final(self).shaper_inv(),
    ;

    /// Adds a queue with a bandwidth share.
    fn add_queue(&mut self, share: DataRate) -> (r: Option<QueueId>)
        requires
            old(self).shaper_inv(),
        ensures
            final(self).shaper_inv(),
    ;

    /// Gets the id of the queue that may transmit the next frame.
    fn next_queue(&mut self) -> (r: Option<QueueId>)
        requires
            old(self).shaper_inv(),
        ensures
            final(self).shaper_inv(),
    ;

    /// Gets the length of the backlog of a queue.
    fn get_backlog(&self, queue: &QueueId) -> (r: Option<u64>)
        requires
            self.shaper_inv(),
    ;
}

/// A credit-based shaper similar to 802.1Qav with at most `QUEUES` queues.
#[derive(Debug)]
pub struct CreditBasedShaper<const QUEUES: usize> {
    /// The bandwidth of the port that all queues share.
    pub port_bandwidth: DataRate,
    /// The bandwidth that no queue has reserved.
    pub free_bandwidth: DataRate,
    /// The queues, each at the position given by its id.
    pub queues: Vec<QueueStatus>,
}

impl<const QUEUES: usize> CreditBasedShaper<QUEUES> {
    /// `after` and `r` are what recording the transmission `t` makes of
    /// `before`: the queues are visited in order, each one recorded as
    /// `recorded` says, up to a queue of the transmission with negative
    /// credit, which refuses it.
    pub open spec fn records(before: Self, t: Transmission, after: Self, r: Result<(), Error>) -> bool {
        &&& after.port_bandwidth == before.port_bandwidth
        &&& after.free_bandwidth == before.free_bandwidth
        &&& after.queues.len() == before.queues.len()
        &&& forall|i: int|
            0 <= i < before.queues.len() ==> #[trigger] after.queues@[i] == if blocked_before(
                before.queues@,
                t,
                i,
            ) {
                before.queues@[i]
            } else {
                recorded(before.queues@[i], t)
            }
        &&& blocked_before(before.queues@, t, before.queues.len() as int) ==> r == Err::<(), Error>(
            Error::TransmitNotAllowed,
        )
        &&& !blocked_before(before.queues@, t, before.queues.len() as int) ==> (r is Ok <==> exists|
            i: int,
        | 0 <= i < before.queues.len() && #[trigger] before.queues@[i].id == t.queue())
        &&& !blocked_before(before.queues@, t, before.queues.len() as int) && r is Err ==> r
            == Err::<(), Error>(Error::InvalidData)
    }
    /// The shaper holds at most `QUEUES` queues, each queue at the position
    /// named by its id, with a send slope that is the port bandwidth less its
    /// idle slope, and the queues reserve no more bandwidth than the port
    /// has beside the free bandwidth.
    pub open spec fn wf(&self) -> bool {
        &&& self.queues.len() <= QUEUES
        &&& forall|i: int|
            0 <= i < self.queues.len() ==> (#[trigger] self.queues[i]).id.0 == i as u32
        &&& forall|i: int|
            0 <= i < self.queues.len() ==> #[trigger] self.queues[i].idle_slope
                + self.queues[i].send_slope == self.port_bandwidth.0
        &&& self.free_bandwidth.0 + reserved(self.queues@) <= self.port_bandwidth.0
    }

    /// Recording `t` overflows no credit and no backlog: every queue that
    /// the recording reaches can take it.
    pub open spec fn record_safe(&self, t: Transmission) -> bool {
        forall|i: int|
            0 <= i < self.queues.len() && !blocked_before(self.queues@, t, i)
                ==> !record_overflows(#[trigger] self.queues@[i], t)
    }

    /// Restoring credit for `restore` overflows no credit.
    pub open spec fn restore_safe(&self, restore: Duration) -> bool {
        forall|i: int|
            0 <= i < self.queues.len() && (#[trigger] self.queues@[i]).backlog > 0
                ==> !self.queues@[i].restore_overflows(restore@)
    }

    /// Creates a new credit-based shaper for a port of bandwidth
    /// `port_bandwidth`, with no queues.
    pub fn new(port_bandwidth: DataRate) -> (s: Self)
        ensures
            s.wf(),
            s.port_bandwidth == port_bandwidth,
            s.free_bandwidth == port_bandwidth,
            s.queues@ == Seq::<QueueStatus>::empty(),
    {
        CreditBasedShaper { port_bandwidth, free_bandwidth: port_bandwidth, queues: Vec::new() }
    }

    /// Adds a queue with a bandwidth share of `share`.
    ///
    /// Where the free bandwidth is smaller than `share`, nothing changes and
    /// `None` is returned. Otherwise the share is taken from the free
    /// bandwidth; then, where fewer than `QUEUES` queues exist, a new queue
    /// with the next id is appended and its id returned, and where the
    /// shaper is full, `None` is returned.
    pub fn add_queue(&mut self, share: DataRate) -> (r: Option<QueueId>)
        requires
            old(self).wf(),
        ensures
            final(self).wf(),
            final(self).port_bandwidth == old(self).port_bandwidth,
            share.0 > old(self).free_bandwidth.0 ==> *final(self) == *old(self) && r is None,
            share.0 <= old(self).free_bandwidth.0 ==> final(self).free_bandwidth.0
                == old(self).free_bandwidth.0 - share.0,
            share.0 <= old(self).free_bandwidth.0 && old(self).queues.len() < QUEUES ==> {
                let id = QueueId(old(self).queues.len() as u32);
                &&& r == Some(id)
                &&& final(self).queues@ == old(self).queues@.push(
                    QueueStatus {
                        id,
                        idle_slope: share.0,
                        credit: 0,
                        transmit: false,
                        send_slope: (old(self).port_bandwidth.0 - share.0) as u64,
                        backlog: 0,
                    },
                )
            },
            share.0 <= old(self).free_bandwidth.0 && old(self).queues.len() >= QUEUES ==> r is None
                && final(self).queues@ == old(self).queues@,
    {
        let free = self.free_bandwidth.as_u64();
        let share = share.as_u64();
        if free >= share {
            self.free_bandwidth = DataRate::b(free - share);
            let len = self.queues.len();
            let id = QueueId::from(len as u32);
            if len >= QUEUES {
                return None;
            }
            proof {
                lemma_reserved_nonneg(self.queues@);
            }
            let q = QueueStatus::new(id, share, self.port_bandwidth.as_u64());
            let ghost before = self.queues@;
            self.queues.push(q);
            proof {
                assert(self.queues@.drop_last() =~= before);
                assert(forall|i: int|
                    0 <= i < before.len() ==> #[trigger] self.queues@[i] == before[i]);
                assert(self.queues@[before.len() as int] == q);
            }
            return Some(id);
        }
        None
    }

    /// Requests that the queue of `transmission` transmits its bits: they
    /// are added to its backlog, unless the backlog would overflow.
    ///
    /// Returns `InvalidData` where no queue has the id of `transmission`.
    pub fn request_transmission(&mut self, transmission: &Transmission) -> (r: Result<(), Error>)
        requires
            old(self).wf(),
        ensures
            final(self).wf(),
            final(self).port_bandwidth == old(self).port_bandwidth,
            final(self).free_bandwidth == old(self).free_bandwidth,
            transmission.queue().0 < old(self).queues.len() ==> r is Ok && final(self).queues@
                == old(self).queues@.update(
                transmission.queue().0 as int,
                submitted(old(self).queues@[transmission.queue().0 as int], transmission.bits()),
            ),
            transmission.queue().0 >= old(self).queues.len() ==> r == Err::<(), Error>(
                Error::InvalidData,
            ) && final(self).queues@ == old(self).queues@,
    {
        let q_id: usize = transmission.queue.0 as usize;
        if q_id >= self.queues.len() {
            return Err(Error::InvalidData);
        }
        let mut q = self.queues[q_id];
        let _ = q.submit(transmission.bits);
        let ghost before = self.queues@;
        self.queues.set(q_id, q);
        proof {
            assert(reserved(self.queues@) == reserved(before)) by {
                lemma_reserved_same_slopes(self.queues@, before);
            }
        }
        Ok(())
    }

    /// Notifies the shaper that `transmission` took place.
    ///
    /// The queues are visited in order. The queue of the transmission stops
    /// transmitting and pays for the transmission; every other queue is
    /// restored for the time it took. The visit stops at a queue of the
    /// transmission with negative credit, which returns `TransmitNotAllowed`.
    /// Where no queue has the id of the transmission, `InvalidData` is
    /// returned after every queue was restored.
    pub fn record_transmission(&mut self, transmission: &Transmission) -> (r: Result<(), Error>)
        requires
            old(self).wf(),
            old(self).record_safe(*transmission),
        ensures
            final(self).wf(),
            Self::records(*old(self), *transmission, *final(self), r),
    {
        let ghost start = self.queues@;
        let mut consumed = false;
        let mut i: usize = 0;
        while i < self.queues.len()
            invariant
                self.wf(),
                self.port_bandwidth == old(self).port_bandwidth,
                self.free_bandwidth == old(self).free_bandwidth,
                start == old(self).queues@,
                self.queues.len() == start.len(),
                0 <= i <= start.len(),
                !blocked_before(start, *transmission, i as int),
                forall|j: int|
                    0 <= j < start.len() && !blocked_before(start, *transmission, j) ==> !record_overflows(
                        #[trigger] start[j],
                        *transmission,
                    ),
                forall|j: int| 0 <= j < i ==> #[trigger] self.queues@[j] == recorded(start[j], *transmission),
                forall|j: int| i <= j < start.len() ==> #[trigger] self.queues@[j] == start[j],
                consumed <==> exists|j: int| 0 <= j < i && #[trigger] start[j].id == transmission.queue(),
            decreases start.len() - i,
        {
            let q = self.queues[i];
            let ghost before = self.queues@;
            if q.id == transmission.queue {
                let mut q2 = q;
                q2.transmit = false;
                match q2.consume(&transmission.bits, &transmission.duration) {
                    Ok(_) => {},
                    Err(e) => {
                        self.queues.set(i, q2);
                        proof {
                            lemma_reserved_same_slopes(self.queues@, before);
                            assert(blocks(start[i as int], *transmission));
                            assert forall|j: int| 0 <= j < start.len() implies #[trigger] self.queues@[j]
                                == if blocked_before(start, *transmission, j) {
                                start[j]
                            } else {
                                recorded(start[j], *transmission)
                            } by {
                                if j > i {
                                    assert(blocks(start[i as int], *transmission));
                                    assert(blocked_before(start, *transmission, j));
                                }
                            }
                            assert(blocked_before(start, *transmission, start.len() as int));
                        }
                        return Err(e);
                    },
                }
                self.queues.set(i, q2);
                consumed = true;
            } else {
                let mut q2 = q;
                let _ = q2.restore(&transmission.duration);
                self.queues.set(i, q2);
            }
            proof {
                lemma_reserved_same_slopes(self.queues@, before);
                assert(!blocks(start[i as int], *transmission));
                assert(!blocked_before(start, *transmission, i + 1)) by {
                    if blocked_before(start, *transmission, i + 1) {
                        let j = choose|j: int| 0 <= j < i + 1 && #[trigger] blocks(start[j], *transmission);
                        if j < i {
                            assert(blocked_before(start, *transmission, i as int));
                        }
                    }
                }
            }
            i = i + 1;
        }
        if consumed {
            Ok(())
        } else {
            Err(Error::InvalidData)
        }
    }

    /// Picks the first queue that has frames queued and a credit that is not
    /// negative, marks it as transmitting and returns its id.
    ///
    /// Returns `None` and changes nothing where no queue is ready.
    pub fn next_queue(&mut self) -> (r: Option<QueueId>)
        requires
            old(self).wf(),
        ensures
            final(self).wf(),
            final(self).port_bandwidth == old(self).port_bandwidth,
            final(self).free_bandwidth == old(self).free_bandwidth,
            first_ready(old(self).queues@) < old(self).queues.len() ==> {
                let k = first_ready(old(self).queues@);
                &&& r == Some(old(self).queues@[k].id)
                &&& final(self).queues@ == old(self).queues@.update(
                    k,
                    QueueStatus { transmit: true, ..old(self).queues@[k] },
                )
            },
            first_ready(old(self).queues@) >= old(self).queues.len() ==> r is None
                && final(self).queues@ == old(self).queues@,
            r matches Some(id) ==> exists|k: int|
                0 <= k < old(self).queues.len() && old(self).queues@[k].id == id
                    && old(self).queues@[k].credit >= 0 && old(self).queues@[k].backlog > 0
                    && final(self).queues@[k].transmit && forall|j: int|
                    0 <= j < k ==> (#[trigger] old(self).queues@[j]).credit < 0
                        || old(self).queues@[j].backlog == 0,
            r is None ==> forall|j: int|
                0 <= j < old(self).queues.len() ==> (#[trigger] old(self).queues@[j]).credit < 0
                    || old(self).queues@[j].backlog == 0,
    {
        proof {
            lemma_first_ready_is_first(self.queues@);
        }
        let mut i: usize = 0;
        while i < self.queues.len()
            invariant
                0 <= i <= self.queues.len(),
                *self == *old(self),
                self.wf(),
                forall|j: int| 0 <= j < i ==> !ready(#[trigger] self.queues@[j]),
            decreases self.queues.len() - i,
        {
            let q = self.queues[i];
            if q.transmit_allowed() && q.backlog > 0 {
                proof {
                    lemma_first_ready(self.queues@, i as int);
                }
                let ghost before = self.queues@;
                let mut q2 = q;
                q2.transmit = true;
                self.queues.set(i, q2);
                proof {
                    lemma_reserved_same_slopes(self.queues@, before);
                    assert(forall|j: int|
                        0 <= j < before.len() && j != i ==> #[trigger] self.queues@[j] == before[j]);
                }
                return Some(q.id);
            }
            i = i + 1;
        }
        proof {
            lemma_first_ready(self.queues@, i as int);
        }
        None
    }

    /// Restores credit for `restore` to every queue that has frames queued
    /// and does not transmit.
    pub fn restore_all(&mut self, restore: Duration) -> (r: Result<(), Error>)
        requires
            old(self).wf(),
            old(self).restore_safe(restore),
        ensures
            final(self).wf(),
            final(self).port_bandwidth == old(self).port_bandwidth,
            final(self).free_bandwidth == old(self).free_bandwidth,
            final(self).queues.len() == old(self).queues.len(),
            forall|i: int|
                0 <= i < old(self).queues.len() ==> #[trigger] final(self).queues@[i] == if old(
                    self,
                ).queues@[i].backlog > 0 {
                    old(self).queues@[i].restored(restore@).0
                } else {
                    old(self).queues@[i]
                },
            r is Ok,
    {
        let ghost start = self.queues@;
        let mut i: usize = 0;
        while i < self.queues.len()
            invariant
                self.wf(),
                self.port_bandwidth == old(self).port_bandwidth,
                self.free_bandwidth == old(self).free_bandwidth,
                start == old(self).queues@,
                self.queues.len() == start.len(),
                0 <= i <= start.len(),
                forall|j: int|
                    0 <= j < start.len() && (#[trigger] start[j]).backlog > 0
                        ==> !start[j].restore_overflows(restore@),
                forall|j: int|
                    0 <= j < i ==> #[trigger] self.queues@[j] == if start[j].backlog > 0 {
                        start[j].restored(restore@).0
                    } else {
                        start[j]
                    },
                forall|j: int| i <= j < start.len() ==> #[trigger] self.queues@[j] == start[j],
            decreases start.len() - i,
        {
            let mut q = self.queues[i];
            if q.backlog > 0 {
                let _ = q.restore(&restore);
                let ghost before = self.queues@;
                self.queues.set(i, q);
                proof {
                    lemma_reserved_same_slopes(self.queues@, before);
                }
            }
            i = i + 1;
        }
        Ok(())
    }

    /// Gets the backlog of the queue `queue`, or `None` where there is no
    /// such queue.
    pub fn get_backlog(&self, queue: &QueueId) -> (r: Option<u64>)
        ensures
            queue.0 < self.queues.len() ==> r == Some(self.queues@[queue.0 as int].backlog),
            queue.0 >= self.queues.len() ==> r is None,
    {
        let i = queue.0 as usize;
        if i < self.queues.len() {
            Some(self.queues[i].backlog)
        } else {
            None
        }
    }
}

/// The reserved bandwidth is never negative.
proof fn lemma_reserved_nonneg(qs: Seq<QueueStatus>)
    ensures
        reserved(qs) >= 0,
    decreases qs.len(),
{
    if qs.len() > 0 {
        lemma_reserved_nonneg(qs.drop_last());
    }
}

/// Two sequences of queues with the same idle slopes reserve the same
/// bandwidth.
proof fn lemma_reserved_same_slopes(a: Seq<QueueStatus>, b: Seq<QueueStatus>)
    requires
        a.len() == b.len(),
        forall|i: int| 0 <= i < a.len() ==> (#[trigger] a[i]).idle_slope == b[i].idle_slope,
    ensures
        reserved(a) == reserved(b),
    decreases a.len(),
{
    if a.len() > 0 {
        lemma_reserved_same_slopes(a.drop_last(), b.drop_last());
    }
}

/// The queues of a shaper together reserve no more bandwidth than its port
/// has: their idle slopes add up to at most the port bandwidth.
pub proof fn lemma_reserved_within_port<const QUEUES: usize>(s: CreditBasedShaper<QUEUES>)
    requires
        s.wf(),
    ensures
        reserved(s.queues@) <= s.port_bandwidth.0,
{
}

/// Adding a queue with a share moves the share from the free bandwidth to
/// the reserved bandwidth: their sum stays the same.
pub proof fn lemma_add_queue_moves_share<const QUEUES: usize>(
    before: CreditBasedShaper<QUEUES>,
    after: CreditBasedShaper<QUEUES>,
    q: QueueStatus,
)
    requires
        q.idle_slope <= before.free_bandwidth.0,
        after.free_bandwidth.0 == before.free_bandwidth.0 - q.idle_slope,
        after.queues@ == before.queues@.push(q),
    ensures
        after.free_bandwidth.0 + reserved(after.queues@) == before.free_bandwidth.0 + reserved(
            before.queues@,
        ),
{
    assert(after.queues@.drop_last() =~= before.queues@);
}

/// The queue that `next_queue` picks may transmit: it has frames queued and
/// its credit is not negative, and no queue before it has both.
pub proof fn lemma_next_queue_is_ready(qs: Seq<QueueStatus>)
    requires
        first_ready(qs) < qs.len(),
    ensures
        0 <= first_ready(qs),
        qs[first_ready(qs)].credit >= 0,
        qs[first_ready(qs)].backlog > 0,
        forall|j: int| 0 <= j < first_ready(qs) ==> !ready(#[trigger] qs[j]),
    decreases qs.len(),
{
    if !ready(qs[0]) {
        let rest = qs.drop_first();
        lemma_next_queue_is_ready(rest);
        assert forall|j: int| 0 <= j < first_ready(qs) implies !ready(#[trigger] qs[j]) by {
            if j > 0 {
                assert(qs[j] == rest[j - 1]);
            }
        }
        assert(qs[first_ready(qs)] == rest[first_ready(rest)]);
    }
}

/// A restore withdraws all credit of a queue that has nothing queued and
/// does not transmit, and leaves a transmitting queue as it is.
pub proof fn lemma_restore_idle_queue(q: QueueStatus, nanos: nat)
    ensures
        q.backlog == 0 && !q.transmit ==> q.restored(nanos).0.credit == 0,
        q.transmit ==> q.restored(nanos).0 == q,
{
}

/// A restore of a queue that waits with frames queued adds the credit that
/// its idle slope earns in that time, and changes nothing else.
pub proof fn lemma_restore_waiting_queue(q: QueueStatus, nanos: nat)
    requires
        q.backlog > 0,
        !q.transmit,
        !q.restore_overflows(nanos),
    ensures
        q.restored(nanos).0.credit == q.credit + clip_i128(credit_for(q.idle_slope, nanos)),
        q.restored(nanos).0 == (QueueStatus { credit: q.restored(nanos).0.credit, ..q }),
{
}

impl<const QUEUES: usize> Shaper for CreditBasedShaper<QUEUES> {
    open spec fn shaper_inv(&self) -> bool {
        self.wf()
    }

    fn request_transmission(&mut self, transmission: &Transmission) -> (r: Result<(), Error>)
        ensures
            final(self).port_bandwidth == old(self).port_bandwidth,
            final(self).free_bandwidth == old(self).free_bandwidth,
            transmission.queue().0 < old(self).queues.len() ==> r is Ok && final(self).queues@
                == old(self).queues@.update(
                transmission.queue().0 as int,
                submitted(old(self).queues@[transmission.queue().0 as int], transmission.bits()),
            ),
            transmission.queue().0 >= old(self).queues.len() ==> r == Err::<(), Error>(
                Error::InvalidData,
            ) && final(self).queues@ == old(self).queues@,
    {
        CreditBasedShaper::request_transmission(self, transmission)
    }

    open spec fn can_record(&self, transmission: Transmission) -> bool {
        self.record_safe(transmission)
    }

    fn record_transmission(&mut self, transmission: &Transmission) -> (r: Result<(), Error>)
        ensures
            final(self).port_bandwidth == old(self).port_bandwidth,
            final(self).free_bandwidth == old(self).free_bandwidth,
            final(self).queues.len() == old(self).queues.len(),
            forall|i: int|
                0 <= i < old(self).queues.len() ==> #[trigger] final(self).queues@[i] == if blocked_before(
                    old(self).queues@,
                    *transmission,
                    i,
                ) {
                    old(self).queues@[i]
                } else {
                    recorded(old(self).queues@[i], *transmission)
                },
            blocked_before(old(self).queues@, *transmission, old(self).queues.len() as int) ==> r
                == Err::<(), Error>(Error::TransmitNotAllowed),
            !blocked_before(old(self).queues@, *transmission, old(self).queues.len() as int) ==> (r
                is Ok <==> exists|i: int|
                0 <= i < old(self).queues.len() && #[trigger] old(self).queues@[i].id
                    == transmission.queue()),
            !blocked_before(old(self).queues@, *transmission, old(self).queues.len() as int) && r
                is Err ==> r == Err::<(), Error>(Error::InvalidData),
    {
        CreditBasedShaper::record_transmission(self, transmission)
    }

    open spec fn can_restore(&self, restore: Duration) -> bool {
        self.restore_safe(restore)
    }

    fn restore_all(&mut self, restore: Duration) -> (r: Result<(), Error>)
        ensures
            final(self).port_bandwidth == old(self).port_bandwidth,
            final(self).free_bandwidth == old(self).free_bandwidth,
            final(self).queues.len() == old(self).queues.len(),
            forall|i: int|
                0 <= i < old(self).queues.len() ==> #[trigger] final(self).queues@[i] == if old(
                    self,
                ).queues@[i].backlog > 0 {
                    old(self).queues@[i].restored(restore@).0
                } else {
                    old(self).queues@[i]
                },
            r is Ok,
    {
        CreditBasedShaper::restore_all(self, restore)
    }

    fn add_queue(&mut self, share: DataRate) -> (r: Option<QueueId>)
        ensures
            final(self).port_bandwidth == old(self).port_bandwidth,
            share.0 > old(self).free_bandwidth.0 ==> *final(self) == *old(self) && r is None,
            share.0 <= old(self).free_bandwidth.0 ==> final(self).free_bandwidth.0
                == old(self).free_bandwidth.0 - share.0,
            share.0 <= old(self).free_bandwidth.0 && old(self).queues.len() < QUEUES ==> {
                let id = QueueId(old(self).queues.len() as u32);
                &&& r == Some(id)
                &&& final(self).queues@ == old(self).queues@.push(
                    QueueStatus {
                        id,
                        idle_slope: share.0,
                        credit: 0,
                        transmit: false,
                        send_slope: (old(self).port_bandwidth.0 - share.0) as u64,
                        backlog: 0,
                    },
                )
            },
            share.0 <= old(self).free_bandwidth.0 && old(self).queues.len() >= QUEUES ==> r is None
                && final(self).queues@ == old(self).queues@,
    {
        CreditBasedShaper::add_queue(self, share)
    }

    fn next_queue(&mut self) -> (r: Option<QueueId>)
        ensures
            final(self).port_bandwidth == old(self).port_bandwidth,
            final(self).free_bandwidth == old(self).free_bandwidth,
            first_ready(old(self).queues@) < old(self).queues.len() ==> {
                let k = first_ready(old(self).queues@);
                &&& r == Some(old(self).queues@[k].id)
                &&& final(self).queues@ == old(self).queues@.update(
                    k,
                    QueueStatus { transmit: true, ..old(self).queues@[k] },
                )
            },
            first_ready(old(self).queues@) >= old(self).queues.len() ==> r is None
                && final(self).queues@ == old(self).queues@,
    {
        CreditBasedShaper::next_queue(self)
    }

    fn get_backlog(&self, queue: &QueueId) -> (r: Option<u64>)
        ensures
            queue.0 < self.queues.len() ==> r == Some(self.queues@[queue.0 as int].backlog),
            queue.0 >= self.queues.len() ==> r is None,
    {
        CreditBasedShaper::get_backlog(self, queue)
    }
}
/// Recording a transmission charges the queue that sent it: where that
/// queue's credit is not negative, the recording succeeds, the queue stops
/// transmitting, its backlog drops by the bits sent, and its credit drops by
/// the credit that its send slope earns over the time the transmission took
/// (`send_slope * nanoseconds / 10^9`, rounded down, at most the largest
/// `i128`). Where its credit is negative, the recording is refused with
/// `TransmitNotAllowed` and its credit and backlog stay.
#[verifier::rlimit(50)]
pub proof fn lemma_record_charges_sender<const QUEUES: usize>(
    before: CreditBasedShaper<QUEUES>,
    t: Transmission,
    after: CreditBasedShaper<QUEUES>,
    r: Result<(), Error>,
)
    requires
        before.wf(),
        before.record_safe(t),
        CreditBasedShaper::<QUEUES>::records(before, t, after, r),
        (t.queue().0 as int) < before.queues.len(),
        before.queues.len() <= u32::MAX,
    ensures
        ({
            let k = t.queue().0 as int;
            let q = before.queues@[k];
            let q2 = after.queues@[k];
            let cost = (q.send_slope * t.duration()@) / 1_000_000_000;
            &&& q.credit >= 0 ==> {
                &&& r is Ok
                &&& q2.credit == q.credit - (if cost > i128::MAX {
                    i128::MAX as int
                } else {
                    cost
                })
                &&& q2.backlog == q.backlog - t.bits()
                &&& !q2.transmit
                &&& q2.id == q.id && q2.idle_slope == q.idle_slope && q2.send_slope == q.send_slope
            }
            &&& q.credit < 0 ==> {
                &&& r == Err::<(), Error>(Error::TransmitNotAllowed)
                &&& q2.credit == q.credit
                &&& q2.backlog == q.backlog
            }
        }),
{
    let k = t.queue().0 as int;
    let qs = before.queues@;
    assert(qs[k].id == t.queue()) by {
        assert(before.queues[k].id.0 == k as u32);
    }
    assert(!blocked_before(qs, t, k)) by {
        if blocked_before(qs, t, k) {
            let j = choose|j: int| 0 <= j < k && #[trigger] blocks(qs[j], t);
            assert(before.queues[j].id.0 == j as u32);
        }
    }
    assert(after.queues@[k] == recorded(qs[k], t));
    assert(!record_overflows(qs[k], t));
    if qs[k].credit < 0 {
        assert(blocks(qs[k], t));
        assert(blocked_before(qs, t, qs.len() as int));
    } else {
        assert(!blocked_before(qs, t, qs.len() as int)) by {
            if blocked_before(qs, t, qs.len() as int) {
                let j = choose|j: int| 0 <= j < qs.len() && #[trigger] blocks(qs[j], t);
                assert(before.queues[j].id.0 == j as u32);
                assert(j == k);
            }
        }
    }
}

} // verus!
