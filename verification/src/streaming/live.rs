//! Live PCM fan-out: a single-producer / multi-consumer broadcast that tees
//! every decoded packet identically to each per-device writer.
//!
//! Each consumer holds a bounded channel. On overflow the packet is dropped for
//! the lagging device only (the producer is never blocked); a disconnected
//! consumer is pruned on the next push. The payload is shared (`Arc`), so
//! fanning one packet out to N devices is N refcount bumps, not N copies.

use std::sync::mpsc::{Receiver, SyncSender, TrySendError};
use std::sync::Arc;
use vstd::prelude::*;

verus! {

/// A decoded, interleaved-s16le PCM packet shared across all device writers.
pub type PcmPacket = Arc<Vec<u8>>;

/// Per-subscriber channel depth (packets): comfortably over a second of
/// buffer at librespot's pacing.
pub const DEFAULT_CAPACITY: usize = 128;

#[verifier::external_type_specification]
#[verifier::external_body]
#[verifier::reject_recursive_types(T)]
pub struct ExSyncSender<T>(SyncSender<T>);

#[verifier::external_type_specification]
#[verifier::external_body]
#[verifier::reject_recursive_types(T)]
pub struct ExReceiver<T>(Receiver<T>);

/// What became of one non-blocking send.
#[derive(Debug, Clone, Copy, PartialEq, Eq, Structural)]
pub enum SendOutcome {
    /// Queued for the consumer.
    Sent,
    /// The consumer's channel was full; the packet was dropped for it.
    Full,
    /// The consumer is gone.
    Disconnected,
}

/// A bounded channel for `bound` packets (`std::sync::mpsc::sync_channel`).
/// Nothing is stated of the pair: the channel's state lives outside Verus's
/// view.
#[verifier::external_body]
fn make_channel(bound: usize) -> (SyncSender<PcmPacket>, Receiver<PcmPacket>) {
    std::sync::mpsc::sync_channel(bound)
}

/// A non-blocking send of a new handle to `packet` (`SyncSender::try_send`),
/// told apart by outcome, together with the bytes the sent handle carries.
/// Which outcome comes back depends on the consumer thread, so nothing is
/// stated of it; a handle made by `Arc::clone` carries the bytes of the one it
/// was made from, and that is what is stated of the second part.
#[verifier::external_body]
fn offer(tx: &SyncSender<PcmPacket>, packet: &PcmPacket) -> (r: (SendOutcome, Ghost<Seq<u8>>))
    ensures
        r.1@ == packet@,
{
    let outcome = match tx.try_send(Arc::clone(packet)) {
        Ok(()) => SendOutcome::Sent,
        Err(TrySendError::Full(_)) => SendOutcome::Full,
        Err(TrySendError::Disconnected(_)) => SendOutcome::Disconnected,
    };
    (outcome, Ghost(packet@))
}

/// The subscribers that survive a push: every one whose send did not find it
/// disconnected, in the order they had.
pub open spec fn kept<T>(subs: Seq<T>, outs: Seq<SendOutcome>) -> Seq<T>
    decreases subs.len(),
{
    if subs.len() == 0 {
        Seq::empty()
    } else {
        let rest = kept(subs.drop_last(), outs.drop_last());
        if outs.last() is Disconnected {
            rest
        } else {
            rest.push(subs.last())
        }
    }
}

/// How many sends found a full channel.
pub open spec fn full_count(outs: Seq<SendOutcome>) -> nat
    decreases outs.len(),
{
    if outs.len() == 0 {
        0
    } else {
        full_count(outs.drop_last()) + if outs.last() is Full {
            1nat
        } else {
            0nat
        }
    }
}

/// `a + b` on a wrapping 64-bit counter.
pub open spec fn wrap_add(a: u64, b: nat) -> u64 {
    ((a + b) % 0x1_0000_0000_0000_0000) as u64
}

/// The live tee: created once for the process lifetime; the engine subscribes
/// one receiver per device when a live stream starts and clears them when it
/// stops.
pub struct PcmFanout {
    subs: Vec<SyncSender<PcmPacket>>,
    pushed: u64,
    dropped: u64,
    /// The bytes offered to each subscriber by the last push, in the order
    /// the subscribers had then.
    offers: Ghost<Seq<Seq<u8>>>,
}

impl PcmFanout {
    /// The registered senders, in subscription order.
    pub closed spec fn subscribers(&self) -> Seq<SyncSender<PcmPacket>> {
        self.subs@
    }

    /// Packets accepted from the producer (wrapping).
    pub closed spec fn pushed_total(&self) -> u64 {
        self.pushed
    }

    /// Per-device drops due to a full channel (wrapping).
    pub closed spec fn dropped_total(&self) -> u64 {
        self.dropped
    }

    /// The bytes each subscriber was offered by the last push, in the order
    /// the subscribers had then.
    pub closed spec fn last_offers(&self) -> Seq<Seq<u8>> {
        self.offers@
    }

    /// A fresh fan-out with no subscribers.
    pub fn new() -> (r: Self)
        ensures
            r.subscribers().len() == 0,
            r.pushed_total() == 0,
            r.dropped_total() == 0,
    {
        PcmFanout { subs: Vec::new(), pushed: 0, dropped: 0, offers: Ghost(Seq::empty()) }
    }

    /// Register a consumer with room for `capacity` packets (at least one) and
    /// return its receiver.
    pub fn subscribe(&mut self, capacity: usize) -> (rx: Receiver<PcmPacket>)
        ensures
            final(self).subscribers().len() == old(self).subscribers().len() + 1,
            final(self).subscribers().drop_last() == old(self).subscribers(),
            final(self).pushed_total() == old(self).pushed_total(),
            final(self).dropped_total() == old(self).dropped_total(),
    {
        let bound = if capacity > 1 {
            capacity
        } else {
            1
        };
        let (tx, rx) = make_channel(bound);
        self.subs.push(tx);
        proof {
            assert(self.subs@.drop_last() =~= old(self).subs@);
        }
        rx
    }

    /// Drop every registered sender; a writer blocked on its receiver then
    /// observes a disconnect and exits.
    pub fn clear(&mut self)
        ensures
            final(self).subscribers().len() == 0,
            final(self).pushed_total() == old(self).pushed_total(),
            final(self).dropped_total() == old(self).dropped_total(),
    {
        self.subs.clear();
    }

    /// Number of live subscribers (pruning happens on `push`).
    pub fn subscriber_count(&self) -> (r: usize)
        ensures
            r == self.subscribers().len(),
    {
        self.subs.len()
    }

    /// Settle one broadcast round from the outcome of each subscriber's send:
    /// disconnected subscribers are removed (the rest keep their order) and
    /// every full channel counts one drop.
    pub fn settle(&mut self, outcomes: &[SendOutcome])
        requires
            outcomes@.len() == old(self).subscribers().len(),
        ensures
            final(self).subscribers() == kept(old(self).subscribers(), outcomes@),
            final(self).dropped_total() == wrap_add(
                old(self).dropped_total(),
                full_count(outcomes@),
            ),
            final(self).pushed_total() == old(self).pushed_total(),
    {
        let ghost subs0 = self.subs@;
        let ghost dropped0 = self.dropped;
        let mut i: usize = 0;
        let mut k: usize = 0;
        while k < outcomes.len()
            invariant
                outcomes@.len() == subs0.len(),
                k <= outcomes@.len(),
                i <= k,
                self.subs@ == kept(subs0.take(k as int), outcomes@.take(k as int)) + subs0.skip(
                    k as int,
                ),
                i == kept(subs0.take(k as int), outcomes@.take(k as int)).len(),
                self.dropped == wrap_add(dropped0, full_count(outcomes@.take(k as int))),
                self.pushed == old(self).pushed,
            decreases outcomes@.len() - k,
        {
            let ghost before = self.subs@;
            assert(subs0.take(k + 1).drop_last() =~= subs0.take(k as int));
            assert(outcomes@.take(k + 1).drop_last() =~= outcomes@.take(k as int));
            assert(before[i as int] == subs0[k as int]);
            match outcomes[k] {
                SendOutcome::Disconnected => {
                    self.subs.remove(i);
                    assert(self.subs@ =~= kept(subs0.take(k + 1), outcomes@.take(k + 1))
                        + subs0.skip(k + 1));
                },
                SendOutcome::Full => {
                    self.dropped = self.dropped.wrapping_add(1);
                    i = i + 1;
                    assert(self.subs@ =~= kept(subs0.take(k + 1), outcomes@.take(k + 1))
                        + subs0.skip(k + 1));
                },
                SendOutcome::Sent => {
                    i = i + 1;
                    assert(self.subs@ =~= kept(subs0.take(k + 1), outcomes@.take(k + 1))
                        + subs0.skip(k + 1));
                },
            }
            k = k + 1;
        }
        assert(subs0.take(k as int) =~= subs0);
        assert(outcomes@.take(k as int) =~= outcomes@);
        assert(self.subs@ =~= kept(subs0, outcomes@));
    }

    /// Broadcast one PCM packet to every subscriber without blocking: each
    /// subscriber is offered a handle to the same bytes; a full channel drops
    /// the packet for that device only, a disconnected subscriber is removed,
    /// and the packet counts as pushed either way.
    pub fn push(&mut self, bytes: Vec<u8>)
        ensures
            final(self).pushed_total() == wrap_add(old(self).pushed_total(), 1),
            final(self).last_offers().len() == old(self).subscribers().len(),
            forall|i: int|
                0 <= i < old(self).subscribers().len() ==> #[trigger] final(self).last_offers()[i]
                    == bytes@,
            exists|outs: Seq<SendOutcome>|
                #![trigger kept(old(self).subscribers(), outs)]
                outs.len() == old(self).subscribers().len() && final(self).subscribers() == kept(
                    old(self).subscribers(),
                    outs,
                ) && final(self).dropped_total() == wrap_add(
                    old(self).dropped_total(),
                    full_count(outs),
                ),
    {
        let ghost content = bytes@;
        let packet: PcmPacket = Arc::new(bytes);
        let mut outcomes: Vec<SendOutcome> = Vec::new();
        let ghost mut sent: Seq<Seq<u8>> = Seq::empty();
        let mut j: usize = 0;
        while j < self.subs.len()
            invariant
                j <= self.subs@.len(),
                outcomes@.len() == j,
                sent.len() == j,
                forall|i: int| 0 <= i < j ==> #[trigger] sent[i] == content,
                packet@ == content,
                self.subs@ == old(self).subs@,
                self.pushed == old(self).pushed,
                self.dropped == old(self).dropped,
            decreases self.subs@.len() - j,
        {
            let r = offer(&self.subs[j], &packet);
            proof {
                sent = sent.push(r.1@);
            }
            outcomes.push(r.0);
            j = j + 1;
        }
        self.settle(outcomes.as_slice());
        self.pushed = self.pushed.wrapping_add(1);
        self.offers = Ghost(sent);
        assert(kept(old(self).subscribers(), outcomes@) == self.subscribers());
    }

    /// Total packets accepted from the producer.
    pub fn pushed(&self) -> (r: u64)
        ensures
            r == self.pushed_total(),
    {
        self.pushed
    }

    /// Total per-device packet drops due to a full subscriber channel.
    pub fn dropped(&self) -> (r: u64)
        ensures
            r == self.dropped_total(),
    {
        self.dropped
    }
}

impl Default for PcmFanout {
    fn default() -> (r: Self)
        ensures
            r.subscribers().len() == 0,
            r.pushed_total() == 0,
            r.dropped_total() == 0,
    {
        PcmFanout::new()
    }
}

/// How many sends found their consumer gone.
pub open spec fn disconnected_count(outs: Seq<SendOutcome>) -> nat
    decreases outs.len(),
{
    if outs.len() == 0 {
        0
    } else {
        disconnected_count(outs.drop_last()) + if outs.last() is Disconnected {
            1nat
        } else {
            0nat
        }
    }
}

/// A push prunes exactly the disconnected consumers: every other one stays,
/// and when nobody disconnected the subscriber list is unchanged.
pub proof fn law_push_prunes_only_disconnected<T>(subs: Seq<T>, outs: Seq<SendOutcome>)
    requires
        outs.len() == subs.len(),
    ensures
        kept(subs, outs).len() + disconnected_count(outs) == subs.len(),
        (forall|i: int| 0 <= i < outs.len() ==> !(#[trigger] outs[i] is Disconnected)) ==> kept(
            subs,
            outs,
        ) == subs,
        full_count(outs) + disconnected_count(outs) <= outs.len(),
    decreases subs.len(),
{
    if subs.len() > 0 {
        law_push_prunes_only_disconnected(subs.drop_last(), outs.drop_last());
        if forall|i: int| 0 <= i < outs.len() ==> !(#[trigger] outs[i] is Disconnected) {
            assert forall|i: int| 0 <= i < outs.drop_last().len() implies !(
            #[trigger] outs.drop_last()[i] is Disconnected) by {
                assert(outs.drop_last()[i] == outs[i]);
            }
            assert(outs.last() == outs[outs.len() - 1]);
            assert(kept(subs.drop_last(), outs.drop_last()).push(subs.last()) =~= subs);
        }
    } else {
        assert(kept(subs, outs) =~= subs);
    }
}

} // verus!
