//! Heartbeat bookkeeping: when the next beat is due, which nonce it carries,
//! and whether an acknowledgement matches it.
use vstd::prelude::*;
use crate::frames::OpCode3_6;

verus! {

/// Relies on `rand::random`: a value drawn from the thread-local generator.
/// Nothing is promised of it.
pub assume_specification<T>[ rand::random::<T> ]() -> (r: T)
    where
        rand::distributions::Standard: rand::distributions::Distribution<T>,
;

/// The first beat's delay for a jitter draw `r`: `interval * (r / 2^64)`,
/// rounded down.
pub open spec fn first_delay_spec(interval_ms: u64, r: u64) -> u64 {
    ((interval_ms as int * r as int) / 0x1_0000_0000_0000_0000int) as u64
}

/// The first beat's delay, scaled from a uniform 64-bit draw.
pub fn first_delay_from(interval_ms: u64, r: u64) -> (d: u64)
    ensures
        d == first_delay_spec(interval_ms, r),
        d <= interval_ms,
        interval_ms > 0 ==> d < interval_ms,
{
    proof {
        lemma_first_delay_bound(interval_ms, r);
    }
    assert((interval_ms as int) * (r as int) <= 0xffff_ffff_ffff_ffffint * 0xffff_ffff_ffff_ffffint) by (nonlinear_arith)
        requires
            interval_ms <= 0xffff_ffff_ffff_ffffint,
            r <= 0xffff_ffff_ffff_ffffint;
    let p: u128 = (interval_ms as u128) * (r as u128);
    let q: u128 = p / 0x1_0000_0000_0000_0000u128;
    assert(q == first_delay_spec(interval_ms, r) as u128);
    q as u64
}

proof fn lemma_first_delay_bound(interval_ms: u64, r: u64)
    ensures
        first_delay_spec(interval_ms, r) <= interval_ms,
        interval_ms > 0 ==> first_delay_spec(interval_ms, r) < interval_ms,
{
    let m = 0x1_0000_0000_0000_0000int;
    assert(interval_ms as int * r as int <= interval_ms as int * (m - 1)) by (nonlinear_arith)
        requires
            r < m,
            interval_ms >= 0;
    assert((interval_ms as int * r as int) / m <= interval_ms as int * (m - 1) / m) by (nonlinear_arith)
        requires
            interval_ms as int * r as int <= interval_ms as int * (m - 1),
            m > 0;
    if interval_ms > 0 {
        assert(interval_ms as int * (m - 1) / m < interval_ms) by (nonlinear_arith)
            requires
                interval_ms > 0,
                m > 1;
    } else {
        assert(interval_ms as int * (m - 1) / m == 0) by (nonlinear_arith)
            requires
                interval_ms == 0,
                m > 1;
    }
}

/// With a one-millisecond interval the first beat is due at once, whatever the jitter.
pub proof fn lemma_unit_interval_beats_at_once(r: u64)
    ensures
        first_delay_spec(1, r) == 0,
{
    lemma_first_delay_bound(1, r);
}

/// The heartbeat state of one session.
#[derive(Clone, Copy, Debug, PartialEq, Eq)]
pub struct HeartbeatCtx {
    pub interval_ms: u64,
    /// The nonce of the most recent beat, once one was sent.
    pub last_nonce: Option<u64>,
    pub first_beat_sent: bool,
}

impl HeartbeatCtx {
    /// The state before any beat.
    pub open spec fn new_spec(interval_ms: u64) -> HeartbeatCtx {
        HeartbeatCtx { interval_ms, last_nonce: None, first_beat_sent: false }
    }

    pub fn new(interval_ms: u64) -> (r: Self)
        ensures
            r == Self::new_spec(interval_ms),
    {
        HeartbeatCtx { interval_ms, last_nonce: None, first_beat_sent: false }
    }

    /// Milliseconds until the next beat for a jitter draw `r`: jittered before
    /// the first beat, the interval after it.
    pub fn next_delay_from(&self, r: u64) -> (d: u64)
        ensures
            d == if self.first_beat_sent { self.interval_ms } else { first_delay_spec(self.interval_ms, r) },
    {
        if self.first_beat_sent {
            self.interval_ms
        } else {
            first_delay_from(self.interval_ms, r)
        }
    }

    /// Milliseconds until the next beat, drawing the jitter at random.
    pub fn next_delay(&self) -> (d: u64)
        ensures
            self.first_beat_sent ==> d == self.interval_ms,
            d <= self.interval_ms,
            !self.first_beat_sent && self.interval_ms > 0 ==> d < self.interval_ms,
    {
        let r: u64 = rand::random();
        proof {
            lemma_first_delay_bound(self.interval_ms, r);
        }
        self.next_delay_from(r)
    }

    /// Records a beat carrying `nonce` and returns its frame.
    pub fn beat_with(&mut self, nonce: u64) -> (f: OpCode3_6)
        ensures
            f.d == nonce,
            *final(self) == (HeartbeatCtx { last_nonce: Some(nonce), first_beat_sent: true, ..*old(self) }),
    {
        self.last_nonce = Some(nonce);
        self.first_beat_sent = true;
        OpCode3_6 { d: nonce }
    }

    /// Records a beat carrying a freshly drawn nonce and returns its frame.
    pub fn beat(&mut self) -> (f: OpCode3_6)
        ensures
            *final(self) == (HeartbeatCtx { last_nonce: Some(f.d), first_beat_sent: true, ..*old(self) }),
    {
        let nonce: u64 = rand::random();
        self.beat_with(nonce)
    }

    /// Whether an acknowledgement carrying `received` matches the last beat;
    /// before any beat every acknowledgement matches.
    pub fn ack_matches(&self, received: u64) -> (r: bool)
        ensures
            r == (self.last_nonce is None || self.last_nonce == Some(received)),
    {
        match self.last_nonce {
            Some(n) => n == received,
            None => true,
        }
    }
}

} // verus!
