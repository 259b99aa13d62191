use vstd::prelude::*;
use vstd::arithmetic::div_mod::{lemma_div_is_ordered, lemma_div_by_multiple};
use vstd::arithmetic::mul::lemma_mul_inequality;
use crate::address::Address;

verus! {

/// A single vesting / streaming position.
///
/// Timestamps are Unix seconds; amounts are in the smallest unit of the
/// streamed token.
#[derive(Debug, PartialEq, Eq)]
pub struct Stream {
    /// Identifier of the stream (taken from the stream counter).
    pub id: u64,
    /// The address that funded the stream.
    pub sender: Address,
    /// The address that receives the streamed tokens.
    pub recipient: Address,
    /// The address of the streamed token.
    pub token: Address,
    /// Tokens locked when the stream was created.
    pub total_amount: i128,
    /// Tokens the recipient has already been paid.
    pub claimed_amount: i128,
    /// Timestamp at which streaming begins.
    pub start_time: u64,
    /// Timestamp at which the stream is fully vested.
    pub end_time: u64,
    /// Whether the stream has been cancelled.
    pub is_cancelled: bool,
}

/// The mathematical value of a [`Stream`].
pub struct StreamView {
    pub id: u64,
    pub sender: Seq<u8>,
    pub recipient: Seq<u8>,
    pub token: Seq<u8>,
    pub total_amount: i128,
    pub claimed_amount: i128,
    pub start_time: u64,
    pub end_time: u64,
    pub is_cancelled: bool,
}

impl View for Stream {
    type V = StreamView;

    open spec fn view(&self) -> StreamView {
        StreamView {
            id: self.id,
            sender: self.sender@,
            recipient: self.recipient@,
            token: self.token@,
            total_amount: self.total_amount,
            claimed_amount: self.claimed_amount,
            start_time: self.start_time,
            end_time: self.end_time,
            is_cancelled: self.is_cancelled,
        }
    }
}

impl StreamView {
    /// What every stored stream satisfies: a positive amount, a claimed
    /// part between zero and that amount, and a non-empty time window.
    pub open spec fn well_formed(self) -> bool {
        &&& 0 < self.total_amount
        &&& 0 <= self.claimed_amount <= self.total_amount
        &&& self.start_time < self.end_time
    }

    /// Length of the streaming window in seconds.
    pub open spec fn duration(self) -> int {
        self.end_time - self.start_time
    }

    /// Seconds of the window that have passed at `now`
    /// (`min(now, end_time) - start_time`, and 0 before the start).
    pub open spec fn elapsed(self, now: u64) -> int {
        if now <= self.start_time {
            0
        } else if now < self.end_time {
            now - self.start_time
        } else {
            self.end_time - self.start_time
        }
    }

    /// The linearly vested amount at `now`:
    /// `total_amount * elapsed / duration`, rounded down.
    pub open spec fn vested(self, now: u64) -> int {
        self.total_amount * self.elapsed(now) / self.duration()
    }

    /// Vested but not yet claimed at `now`, never negative; 0 until the
    /// stream has started.
    pub open spec fn claimable(self, now: u64) -> int {
        if now <= self.start_time {
            0
        } else if self.vested(now) - self.claimed_amount > 0 {
            self.vested(now) - self.claimed_amount
        } else {
            0
        }
    }

    /// Whether `total_amount * elapsed` fits in an `i128` at `now`, so that
    /// the vesting formula can be evaluated without overflow.
    pub open spec fn vesting_fits(self, now: u64) -> bool {
        now <= self.start_time || self.total_amount * self.elapsed(now) <= i128::MAX
    }

    /// What the escrow still holds for this stream: the unclaimed amount of
    /// an active stream, nothing for a cancelled one.
    pub open spec fn escrowed(self) -> int {
        if self.is_cancelled {
            0
        } else {
            self.total_amount - self.claimed_amount
        }
    }
}

/// `0 <= total * elapsed / duration <= total` for `0 <= elapsed <= duration`.
pub proof fn lemma_vested_in_range(total: int, elapsed: int, duration: int)
    requires
        0 <= total,
        0 <= elapsed <= duration,
        0 < duration,
    ensures
        0 <= total * elapsed,
        0 <= total * elapsed / duration <= total,
{
    lemma_mul_inequality(elapsed, duration, total);
    assert(elapsed * total == total * elapsed) by (nonlinear_arith);
    assert(duration * total == total * duration) by (nonlinear_arith);
    lemma_div_is_ordered(total * elapsed, total * duration, duration);
    lemma_div_by_multiple(total, duration);
    assert(0 <= total * elapsed) by (nonlinear_arith)
        requires
            0 <= total,
            0 <= elapsed,
    ;
    lemma_div_is_ordered(0, total * elapsed, duration);
}

/// Within the window of a well-formed stream the vested amount lies
/// between zero and the stream's total.
pub proof fn lemma_stream_vested_in_range(s: StreamView, now: u64)
    requires
        s.well_formed(),
    ensures
        0 <= s.elapsed(now) <= s.duration(),
        0 <= s.total_amount * s.elapsed(now),
        0 <= s.vested(now) <= s.total_amount,
        0 <= s.claimable(now) <= s.total_amount - s.claimed_amount,
{
    lemma_vested_in_range(s.total_amount as int, s.elapsed(now), s.duration());
}

} // verus!
