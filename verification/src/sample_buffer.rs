use std::collections::VecDeque;
use vstd::prelude::*;

verus! {

/// One coded media sample with its timing. Times are counts of ticks of
/// `timescale` ticks per second, as the container stores them.
pub struct Sample {
    pub data: Vec<u8>,
    /// Presentation time stamp, in ticks.
    pub pts: i64,
    /// Decoding time stamp, in ticks.
    pub dts: i64,
    /// Duration, in ticks.
    pub duration: u32,
    /// Ticks per second.
    pub timescale: u32,
    /// The sample is a keyframe (decodable on its own).
    pub is_key: bool,
    /// The sample is the last one of the presentation.
    pub is_last: bool,
}

/// Whether the time `ticks / timescale` is at or before
/// `target / target_scale`. A zero timescale makes the time what float
/// division makes of it: positive ticks +infinity, negative ones
/// -infinity, zero ticks NaN, which is neither before nor after anything.
pub open spec fn at_or_before(ticks: i64, timescale: u32, target: i64, target_scale: u32) -> bool {
    if (timescale == 0 && ticks == 0) || (target_scale == 0 && target == 0) {
        false
    } else if timescale == 0 && ticks < 0 {
        true
    } else if target_scale == 0 && target > 0 {
        true
    } else if timescale == 0 || target_scale == 0 {
        false
    } else {
        ticks * target_scale <= target * timescale
    }
}

/// With non-zero timescales, a time is at or before another exactly when
/// its value in seconds is: `ticks / timescale <= target / target_scale`,
/// that is, cross-multiplied, `ticks * target_scale <= target * timescale`.
pub proof fn lemma_at_or_before_rational(ticks: i64, timescale: u32, target: i64, target_scale: u32)
    requires
        timescale > 0,
        target_scale > 0,
    ensures
        at_or_before(ticks, timescale, target, target_scale) <==> ticks * target_scale <= target * timescale,
{
}

/// Comparing times does not depend on their units: the same time written
/// with ticks and timescale both scaled by `k > 0` compares the same way,
/// on either side, and a time is at or before itself in other units.
pub proof fn lemma_at_or_before_scales(ticks: i64, timescale: u32, target: i64, target_scale: u32, k: int)
    requires
        timescale > 0,
        target_scale > 0,
        k > 0,
        i64::MIN <= ticks * k <= i64::MAX,
        timescale * k <= u32::MAX,
        i64::MIN <= target * k <= i64::MAX,
        target_scale * k <= u32::MAX,
    ensures
        at_or_before((ticks * k) as i64, (timescale * k) as u32, target, target_scale) == at_or_before(
            ticks,
            timescale,
            target,
            target_scale,
        ),
        at_or_before(ticks, timescale, (target * k) as i64, (target_scale * k) as u32) == at_or_before(
            ticks,
            timescale,
            target,
            target_scale,
        ),
        at_or_before(ticks, timescale, (ticks * k) as i64, (timescale * k) as u32),
{
    let t = ticks as int;
    let s = timescale as int;
    let u = target as int;
    let v = target_scale as int;
    let tk = (ticks * k) as i64;
    let sk = (timescale * k) as u32;
    let uk = (target * k) as i64;
    let vk = (target_scale * k) as u32;
    assert(tk == t * k && uk == u * k);
    assert(sk == s * k && vk == v * k);
    assert(s * k > 0 && v * k > 0) by (nonlinear_arith)
        requires
            s > 0,
            v > 0,
            k > 0,
    ;
    assert(((t * k) * v <= u * (s * k)) <==> (t * v <= u * s)) by (nonlinear_arith)
        requires
            k > 0,
    ;
    assert((t * (v * k) <= (u * k) * s) <==> (t * v <= u * s)) by (nonlinear_arith)
        requires
            k > 0,
    ;
    assert(t * (s * k) <= (t * k) * s) by (nonlinear_arith);
}

/// Compares two times as `at_or_before` states it.
pub fn time_at_or_before(ticks: i64, timescale: u32, target: i64, target_scale: u32) -> (before: bool)
    ensures
        before == at_or_before(ticks, timescale, target, target_scale),
{
    if (timescale == 0 && ticks == 0) || (target_scale == 0 && target == 0) {
        false
    } else if timescale == 0 && ticks < 0 {
        true
    } else if target_scale == 0 && target > 0 {
        true
    } else if timescale == 0 || target_scale == 0 {
        false
    } else {
        let a = ticks as i128;
        let b = timescale as i128;
        let c = target as i128;
        let d = target_scale as i128;
        assert(-0x8000_0000_0000_0000_0000_0000 <= a * d <= 0x8000_0000_0000_0000_0000_0000) by (nonlinear_arith)
            requires
                -0x8000_0000_0000_0000 <= a <= 0x8000_0000_0000_0000,
                0 <= d <= 0x1_0000_0000,
        ;
        assert(-0x8000_0000_0000_0000_0000_0000 <= c * b <= 0x8000_0000_0000_0000_0000_0000) by (nonlinear_arith)
            requires
                -0x8000_0000_0000_0000 <= c <= 0x8000_0000_0000_0000,
                0 <= b <= 0x1_0000_0000,
        ;
        let lhs = a * d;
        let rhs = c * b;
        lhs <= rhs
    }
}

/// A sample where seeking to `target / target_scale` may resume: a
/// keyframe presented at or before that time.
pub open spec fn is_seek_point(s: Sample, target: i64, target_scale: u32) -> bool {
    s.is_key && at_or_before(s.pts, s.timescale, target, target_scale)
}

/// The next sample a queue hands out.
pub open spec fn queue_front(q: Seq<Sample>) -> Option<Sample> {
    if q.len() > 0 {
        Some(q[0])
    } else {
        None
    }
}

/// A queue after it handed out its next sample.
pub open spec fn queue_rest(q: Seq<Sample>) -> Seq<Sample> {
    if q.len() > 0 {
        q.subrange(1, q.len() as int)
    } else {
        q
    }
}

/// The samples waiting to be decoded, in decoding order.
pub struct SampleBuffer {
    samples: VecDeque<Sample>,
}

impl View for SampleBuffer {
    type V = Seq<Sample>;

    closed spec fn view(&self) -> Seq<Sample> {
        self.samples@
    }
}

impl SampleBuffer {
    /// An empty buffer.
    pub fn new() -> (buffer: SampleBuffer)
        ensures
            buffer@ == Seq::<Sample>::empty(),
    {
        SampleBuffer { samples: VecDeque::new() }
    }

    /// The number of waiting samples.
    pub fn len(&self) -> (n: usize)
        ensures
            n == self@.len(),
    {
        self.samples.len()
    }

    /// Whether no sample is waiting.
    pub fn is_empty(&self) -> (empty: bool)
        ensures
            empty == (self@.len() == 0),
    {
        self.samples.len() == 0
    }

    /// Queues a sample after the others.
    pub fn push(&mut self, sample: Sample)
        ensures
            final(self)@ == old(self)@.push(sample),
    {
        self.samples.push_back(sample);
    }

    /// The next sample, left in the buffer.
    pub fn peek_next(&self) -> (next: Option<&Sample>)
        ensures
            match next {
                Some(s) => queue_front(self@) == Some(*s),
                None => queue_front(self@) is None,
            },
    {
        if self.samples.len() > 0 {
            Some(&self.samples[0])
        } else {
            None
        }
    }

    /// Takes the next sample out of the buffer.
    pub fn pop_next(&mut self) -> (next: Option<Sample>)
        ensures
            next == queue_front(old(self)@),
            final(self)@ == queue_rest(old(self)@),
    {
        self.samples.pop_front()
    }

    /// Drops every waiting sample.
    pub fn clear(&mut self)
        ensures
            final(self)@ == Seq::<Sample>::empty(),
    {
        self.samples.clear();
    }

    /// Seeks to the time `target / target_scale`: finds the last keyframe
    /// presented at or before it and drops the samples before that
    /// keyframe; where there is none, drops every sample. Returns whether
    /// a keyframe was found.
    pub fn seek(&mut self, target: i64, target_scale: u32) -> (found: bool)
        ensures
            found == exists|i: int| 0 <= i < old(self)@.len() && is_seek_point(#[trigger] old(self)@[i], target, target_scale),
            found ==> exists|i: int|
                0 <= i < old(self)@.len() && is_seek_point(#[trigger] old(self)@[i], target, target_scale)
                    && (forall|j: int| i < j < old(self)@.len() ==> !is_seek_point(#[trigger] old(self)@[j], target, target_scale))
                    && final(self)@ == old(self)@.subrange(i, old(self)@.len() as int),
            !found ==> final(self)@ == Seq::<Sample>::empty(),
    {
        let ghost q = self.samples@;
        let mut i = self.samples.len();
        while i > 0
            invariant
                q == self.samples@,
                q == old(self)@,
                i <= q.len(),
                forall|j: int| i <= j < q.len() ==> !is_seek_point(#[trigger] q[j], target, target_scale),
            decreases i,
        {
            i = i - 1;
            let s = &self.samples[i];
            if s.is_key && time_at_or_before(s.pts, s.timescale, target, target_scale) {
                assert(is_seek_point(q[i as int], target, target_scale));
                let rest = self.samples.split_off(i);
                self.samples = rest;
                return true;
            }
        }
        self.samples.clear();
        false
    }
}


/// The buffer is first in, first out: what is pushed comes out after what
/// was already there, and a pop takes the front without disturbing the
/// order of the rest.
pub proof fn lemma_queue_fifo(q: Seq<Sample>, s: Sample)
    ensures
        queue_front(q.push(s)) == (if q.len() == 0 {
            Some(s)
        } else {
            queue_front(q)
        }),
        q.len() > 0 ==> queue_rest(q.push(s)) == queue_rest(q).push(s),
        q.len() == 0 ==> queue_rest(q.push(s)) == q,
{
    if q.len() > 0 {
        assert(queue_rest(q.push(s)) =~= queue_rest(q).push(s));
    } else {
        assert(queue_rest(q.push(s)) =~= q);
    }
}

/// Seeking is idempotent: after a seek that kept the samples from the last
/// seek point `i` on, that point is the front, it is the last seek point of
/// what is left, and seeking again to the same time keeps everything.
pub proof fn lemma_seek_idempotent(q: Seq<Sample>, i: int, target: i64, target_scale: u32)
    requires
        0 <= i < q.len(),
        is_seek_point(q[i], target, target_scale),
        forall|j: int| i < j < q.len() ==> !is_seek_point(#[trigger] q[j], target, target_scale),
    ensures
        ({
            let kept = q.subrange(i, q.len() as int);
            &&& queue_front(kept) == Some(q[i])
            &&& is_seek_point(kept[0], target, target_scale)
            &&& forall|j: int| 0 < j < kept.len() ==> !is_seek_point(#[trigger] kept[j], target, target_scale)
            &&& kept.subrange(0, kept.len() as int) == kept
        }),
{
    let kept = q.subrange(i, q.len() as int);
    assert forall|j: int| 0 < j < kept.len() implies !is_seek_point(#[trigger] kept[j], target, target_scale) by {
        assert(kept[j] == q[i + j]);
    }
    assert(kept.subrange(0, kept.len() as int) =~= kept);
}

} // verus!
