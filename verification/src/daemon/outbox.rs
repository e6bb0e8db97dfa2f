//! Frames on their way to the server.
//!
//! Agents and terminals go on while the connection is down. What they send waits here and is
//! sent in order once the connection is back. There is a limit; beyond it the oldest go.
use std::collections::VecDeque;
use vstd::prelude::*;

verus! {

/// How many frames wait at most.
pub const DEFAULT_CAPACITY: usize = 8192;

/// The number of a frame. A frame leaves when its number is acknowledged.
#[derive(Debug, Clone, Copy, PartialEq, Eq, Structural)]
pub struct FrameSeq(pub u64);

/// The frames that wait, oldest first.
pub struct Outbox {
    frames: VecDeque<(FrameSeq, String)>,
    next_seq: u64,
    capacity: usize,
}

/// The last `n` elements of a sequence.
pub open spec fn newest<A>(s: Seq<A>, n: nat) -> Seq<A> {
    if s.len() <= n {
        s
    } else {
        s.skip(s.len() - n)
    }
}

/// What waits after a frame was acknowledged: it is gone where it was the oldest one. A frame that
/// was dropped meanwhile is acknowledged in vain.
pub open spec fn acknowledged(waiting: Seq<(u64, Seq<char>)>, seq: u64) -> Seq<(u64, Seq<char>)> {
    if waiting.len() > 0 && waiting[0].0 == seq {
        waiting.skip(1)
    } else {
        waiting
    }
}

impl Outbox {
    /// The numbers and texts of the frames that wait.
    pub closed spec fn view(&self) -> Seq<(u64, Seq<char>)> {
        self.frames@.map_values(|f: (FrameSeq, String)| (f.0.0, f.1@))
    }

    /// The number that the next frame gets.
    pub closed spec fn next(&self) -> u64 {
        self.next_seq
    }

    /// How many frames wait at most.
    pub closed spec fn limit(&self) -> usize {
        self.capacity
    }

    /// No more frames wait than may, and their numbers follow one another up to the next one.
    pub open spec fn well_formed(&self) -> bool {
        &&& self@.len() <= self.limit()
        &&& self@.len() <= self.next()
        &&& forall|i: int|
            0 <= i < self@.len() ==> (#[trigger] self@[i]).0 == self.next() - self@.len() + i
    }

    /// Nothing waits.
    pub fn new() -> (r: Self)
        ensures
            r.well_formed(),
            r@.len() == 0,
            r.next() == 0,
            r.limit() == DEFAULT_CAPACITY,
    {
        Self::with_capacity(DEFAULT_CAPACITY)
    }

    /// Nothing waits, and no more than `capacity` frames ever will.
    pub fn with_capacity(capacity: usize) -> (r: Self)
        ensures
            r.well_formed(),
            r@.len() == 0,
            r.next() == 0,
            r.limit() == capacity,
    {
        Outbox { frames: VecDeque::new(), next_seq: 0, capacity }
    }

    /// Puts a frame behind the others. Beyond the limit the oldest go.
    pub fn push(&mut self, frame: String)
        requires
            old(self).well_formed(),
            old(self).next() < u64::MAX,
        ensures
            final(self).well_formed(),
            final(self).limit() == old(self).limit(),
            final(self).next() == old(self).next() + 1,
            final(self)@ == newest(
                old(self)@.push((old(self).next(), frame@)),
                old(self).limit() as nat,
            ),
    {
        let seq: FrameSeq = FrameSeq(self.next_seq);
        let ghost before = self.frames@;
        let ghost entry = (seq, frame);
        self.next_seq = self.next_seq + 1;
        self.frames.push_back((seq, frame));
        let ghost all = before.push(entry);
        proof {
            assert(newest(all, all.len()) == all);
            assert(forall|i: int|
                0 <= i < before.len() ==> #[trigger] old(self)@[i] == (before[i].0.0, before[i].1@));
        }
        while self.frames.len() > self.capacity
            invariant
                self.capacity == old(self).capacity,
                self.next_seq == old(self).next_seq + 1,
                self.frames@.len() <= all.len(),
                all.len() >= self.capacity ==> self.frames@.len() >= self.capacity,
                all.len() <= self.capacity ==> self.frames@ == all,
                self.frames@ == newest(all, self.frames@.len()),
            decreases self.frames.len(),
        {
            let ghost now = self.frames@;
            let _ = self.frames.pop_front();
            proof {
                assert(self.frames@ =~= newest(all, (now.len() - 1) as nat));
            }
        }
        proof {
            let kept = newest(all, old(self).capacity as nat);
            assert(self.frames@ =~= kept);
            let f = |f: (FrameSeq, String)| (f.0.0, f.1@);
            assert(all.map_values(f) =~= old(self)@.push((old(self).next(), frame@)));
            assert(kept.map_values(f) =~= newest(all.map_values(f), old(self).capacity as nat));
            assert forall|i: int| 0 <= i < self@.len() implies (#[trigger] self@[i]).0
                == self.next() - self@.len() + i by {
                let k = all.len() - self@.len();
                assert(self@[i] == all.map_values(f)[i + k]);
                if i + k < before.len() {
                    assert(old(self)@[i + k].0 == old(self).next() - old(self)@.len() + i + k);
                }
            }
        }
    }

    /// The oldest frame that waits.
    pub fn peek(&self) -> (r: Option<(FrameSeq, String)>)
        ensures
            r is Some <==> self@.len() > 0,
            r matches Some(f) ==> (f.0.0, f.1@) == self@[0],
    {
        if self.frames.len() == 0 {
            return None;
        }
        let front: &(FrameSeq, String) = &self.frames[0];
        Some((front.0, front.1.clone()))
    }

    /// Takes the oldest frame out if the number is its own; otherwise nothing changes.
    pub fn ack(&mut self, seq: FrameSeq)
        requires
            old(self).well_formed(),
        ensures
            final(self).well_formed(),
            final(self).limit() == old(self).limit(),
            final(self).next() == old(self).next(),
            final(self)@ == acknowledged(old(self)@, seq.0),
    {
        if self.frames.len() > 0 && self.frames[0].0.0 == seq.0 {
            let ghost before = self.frames@;
            let _ = self.frames.pop_front();
            proof {
                assert(old(self)@ == before.map_values(|f: (FrameSeq, String)| (f.0.0, f.1@)));
                assert(self@ =~= old(self)@.skip(1));
            }
        }
    }

    /// How many frames wait.
    pub fn len(&self) -> (r: usize)
        ensures
            r == self@.len(),
    {
        self.frames.len()
    }
}

impl Default for Outbox {
    fn default() -> (r: Self)
        ensures
            r.well_formed(),
            r@.len() == 0,
            r.next() == 0,
            r.limit() == DEFAULT_CAPACITY,
    {
        Outbox::new()
    }
}

/// What waits in an outbox after pushing frames one after the other.
pub open spec fn after_pushes(
    waiting: Seq<(u64, Seq<char>)>,
    next: nat,
    limit: nat,
    frames: Seq<Seq<char>>,
) -> Seq<(u64, Seq<char>)>
    decreases frames.len(),
{
    if frames.len() == 0 {
        waiting
    } else {
        newest(
            after_pushes(waiting, next, limit, frames.drop_last()).push(
                ((next + frames.len() - 1) as u64, frames.last()),
            ),
            limit,
        )
    }
}

/// Whatever is pushed while nothing is acknowledged, the newest frames wait, in the order in
/// which they came, as many as there is room for.
pub proof fn law_pushed_frames_wait_in_order(
    waiting: Seq<(u64, Seq<char>)>,
    next: nat,
    limit: nat,
    frames: Seq<Seq<char>>,
)
    requires
        waiting.len() <= limit,
    ensures
        after_pushes(waiting, next, limit, frames) == newest(
            waiting + Seq::new(frames.len(), |i: int| ((next + i) as u64, frames[i])),
            limit,
        ),
    decreases frames.len(),
{
    let numbered = Seq::new(frames.len(), |i: int| ((next + i) as u64, frames[i]));
    if frames.len() == 0 {
        assert(waiting + numbered =~= waiting);
    } else {
        let less = frames.drop_last();
        law_pushed_frames_wait_in_order(waiting, next, limit, less);
        let numbered_less = Seq::new(less.len(), |i: int| ((next + i) as u64, less[i]));
        let last = ((next + frames.len() - 1) as u64, frames.last());
        assert(waiting + numbered =~= (waiting + numbered_less).push(last));
        let a = waiting + numbered_less;
        assert(newest(newest(a, limit).push(last), limit) =~= newest(a.push(last), limit));
    }
}

/// What waits after each of so many times the oldest frame, where there was one, was acknowledged.
pub open spec fn after_acks(waiting: Seq<(u64, Seq<char>)>, times: nat) -> Seq<(u64, Seq<char>)>
    decreases times,
{
    if times == 0 {
        waiting
    } else {
        let left = after_acks(waiting, (times - 1) as nat);
        if left.len() > 0 {
            acknowledged(left, left[0].0)
        } else {
            left
        }
    }
}

/// Acknowledging each frame as it is sent hands every frame that waits over exactly once and in
/// order: after `n` acknowledgements of the oldest, the first `n` are gone, the rest wait, and the
/// next to be sent is the one behind them.
pub proof fn law_acknowledging_hands_over_in_order(waiting: Seq<(u64, Seq<char>)>, n: nat)
    requires
        n <= waiting.len(),
    ensures
        after_acks(waiting, n) == waiting.skip(n as int),
        n < waiting.len() ==> after_acks(waiting, n)[0] == waiting[n as int],
    decreases n,
{
    if n == 0 {
        assert(waiting.skip(0) =~= waiting);
    } else {
        law_acknowledging_hands_over_in_order(waiting, (n - 1) as nat);
        assert(waiting.skip(n - 1).skip(1) =~= waiting.skip(n as int));
    }
}

} // verus!
