//! Temporal sampling: which decoded frames become previews.
//!
//! A frame is retained when its zero-based decode position `p` satisfies
//! `(p + 1) % step == 0`: the retained positions are `step - 1`, `2 * step - 1`,
//! and so on, over the global decode order of the stream.
use vstd::prelude::*;
use crate::error::ExtractionError;

verus! {

/// A rational number `num / den`: a frame rate in frames per second, or a
/// time base in seconds per tick.
#[derive(Clone, Copy, Debug, PartialEq, Eq, Structural)]
pub struct Rational {
    pub num: i32,
    pub den: i32,
}

/// The smallest integer not below `a / b`, for positive `b` and non-negative `a`.
pub open spec fn ceil_div(a: int, b: int) -> int {
    (a + b - 1) / b
}

/// Whether a frame rate and a cadence (in seconds) give a step.
pub open spec fn step_defined(rate: Rational, cadence: i32) -> bool {
    rate.num > 0 && rate.den > 0 && cadence > 0
}

/// Number of frames between two retained frames: the frame rate rounded up,
/// times the cadence.
pub open spec fn step_of(rate: Rational, cadence: i32) -> int {
    ceil_div(rate.num as int, rate.den as int) * cadence
}

/// Whether the frame at decode position `pos` is retained.
pub open spec fn is_retained(pos: int, step: int) -> bool {
    (pos + 1) % step == 0
}

/// The decode positions retained out of the first `n` frames, in order.
pub open spec fn retained_positions(n: nat, step: int) -> Seq<int> {
    Seq::new((n as int / step) as nat, |k: int| (k + 1) * step - 1)
}

/// The frames retained out of a decoded sequence, in decode order.
pub open spec fn select_spec<T>(frames: Seq<T>, step: int) -> Seq<T> {
    retained_positions(frames.len(), step).map_values(|p: int| frames[p])
}

proof fn lemma_ceil_div_bounds(a: int, b: int)
    requires
        a > 0,
        b > 0,
    ensures
        1 <= ceil_div(a, b) <= a,
{
    assert(1 <= (a + b - 1) / b) by (nonlinear_arith)
        requires a > 0, b > 0;
    assert((a + b - 1) / b <= a) by (nonlinear_arith)
        requires a > 0, b > 0;
}

/// Computes the sampling step from a stream's average frame rate and a cadence
/// in seconds. Fails when the rate has a zero or negative part, or the cadence
/// is not positive: a step of zero is never produced.
pub fn compute_step(rate: Rational, cadence: i32) -> (r: Result<u64, ExtractionError>)
    ensures
        r is Ok <==> step_defined(rate, cadence),
        r is Err ==> r == Err::<u64, ExtractionError>(ExtractionError::InvalidStep),
        r is Ok ==> r->Ok_0 as int == step_of(rate, cadence) && r->Ok_0 > 0,
{
    if rate.num <= 0 || rate.den <= 0 || cadence <= 0 {
        return Err(ExtractionError::InvalidStep);
    }
    let num = rate.num as u64;
    let den = rate.den as u64;
    let per_second = (num + den - 1) / den;
    proof {
        lemma_ceil_div_bounds(num as int, den as int);
        assert(per_second * (cadence as u64) <= 0x7fff_ffff * 0x7fff_ffff) by (nonlinear_arith)
            requires per_second <= 0x7fff_ffff, cadence <= 0x7fff_ffff, per_second >= 0, cadence >= 0;
        assert(per_second * (cadence as u64) > 0) by (nonlinear_arith)
            requires per_second >= 1, cadence >= 1;
    }
    Ok(per_second * (cadence as u64))
}

/// Facts about the selection: for `n` decoded frames and a positive step,
/// exactly `n / step` frames are retained, their positions are strictly
/// increasing and below `n`, and they are precisely the retained positions
/// below `n`.
pub proof fn lemma_selection_shape(n: nat, step: int)
    requires
        step > 0,
    ensures
        retained_positions(n, step).len() == n as int / step,
        forall|i: int, j: int|
            0 <= i < j < retained_positions(n, step).len() ==> retained_positions(n, step)[i]
                < retained_positions(n, step)[j],
        forall|i: int|
            0 <= i < retained_positions(n, step).len() ==> 0 <= #[trigger] retained_positions(
                n,
                step,
            )[i] < n && is_retained(retained_positions(n, step)[i], step),
        forall|p: int|
            0 <= p < n && is_retained(p, step) ==> retained_positions(n, step).contains(p),
{
    let s = retained_positions(n, step);
    assert forall|i: int, j: int| 0 <= i < j < s.len() implies s[i] < s[j] by {
        assert((i + 1) * step < (j + 1) * step) by (nonlinear_arith)
            requires i < j, step > 0;
    }
    assert forall|i: int| 0 <= i < s.len() implies 0 <= #[trigger] s[i] < n && is_retained(s[i], step) by {
        let q = n as int / step;
        assert(i + 1 <= q);
        assert((i + 1) * step <= q * step) by (nonlinear_arith)
            requires i + 1 <= q, step > 0;
        assert(q * step <= n) by (nonlinear_arith)
            requires q == n as int / step, step > 0, n >= 0;
        assert((i + 1) * step >= step) by (nonlinear_arith)
            requires i >= 0, step > 0;
        assert(((i + 1) * step) % step == 0) by (nonlinear_arith)
            requires step > 0;
    }
    assert forall|p: int| 0 <= p < n && is_retained(p, step) implies s.contains(p) by {
        let k = (p + 1) / step - 1;
        assert((p + 1) == ((p + 1) / step) * step) by (nonlinear_arith)
            requires (p + 1) % step == 0, step > 0;
        assert((p + 1) / step >= 1) by (nonlinear_arith)
            requires p >= 0, (p + 1) == ((p + 1) / step) * step, step > 0;
        assert((p + 1) / step <= n as int / step) by (nonlinear_arith)
            requires p + 1 <= n, step > 0;
        assert(s[k] == p);
    }
}

/// A video with fewer decoded frames than the step yields no previews.
pub proof fn lemma_short_video_yields_nothing<T>(frames: Seq<T>, step: int)
    requires
        step > 0,
        frames.len() < step,
    ensures
        select_spec(frames, step).len() == 0,
{
    assert(frames.len() as int / step == 0) by (nonlinear_arith)
        requires 0 <= frames.len() < step;
}

/// Extending the decoded prefix by one frame appends that frame to the
/// selection exactly when its position is retained.
pub proof fn lemma_select_extend<T>(s: Seq<T>, i: int, step: int)
    requires
        step > 0,
        0 <= i < s.len(),
    ensures
        select_spec(s.subrange(0, i + 1), step) == if is_retained(i, step) {
            select_spec(s.subrange(0, i), step).push(s[i])
        } else {
            select_spec(s.subrange(0, i), step)
        },
{
    let before = s.subrange(0, i);
    let after = s.subrange(0, i + 1);
    let k = (i + 1) / step;
    if is_retained(i, step) {
        assert(i + 1 == k * step) by (nonlinear_arith)
            requires (i + 1) % step == 0, step > 0, k == (i + 1) / step;
        assert(i / step == k - 1) by (nonlinear_arith)
            requires i + 1 == k * step, step > 0;
    } else {
        assert(i / step == k) by (nonlinear_arith)
            requires (i + 1) % step != 0, step > 0, k == (i + 1) / step, i >= 0;
    }
    assert forall|j: int| 0 <= j < select_spec(before, step).len() implies
        select_spec(after, step)[j] == select_spec(before, step)[j] by {
        lemma_selection_shape(before.len(), step);
        assert(retained_positions(before.len(), step)[j] < before.len());
    }
    if is_retained(i, step) {
        assert(select_spec(after, step) =~= select_spec(before, step).push(s[i]));
    } else {
        assert(select_spec(after, step) =~= select_spec(before, step));
    }
}

/// Retains, in order, the frames whose decode position is retained for
/// `step`.
pub fn select<T: Copy>(frames: &[T], step: u64) -> (r: Vec<T>)
    requires
        step > 0,
    ensures
        r@ == select_spec(frames@, step as int),
{
    let mut out: Vec<T> = Vec::new();
    let mut i: usize = 0;
    let n = frames.len();
    while i < n
        invariant
            n == frames@.len(),
            step > 0,
            i <= n,
            out@ == select_spec(frames@.subrange(0, i as int), step as int),
        decreases n - i,
    {
        let keep = (i as u64 + 1) % step == 0;
        if keep {
            out.push(frames[i]);
        }
        proof {
            lemma_select_extend(frames@, i as int, step as int);
        }
        i += 1;
    }
    assert(frames@.subrange(0, n as int) =~= frames@);
    out
}

/// Follows the global decode position of a stream and says, frame by frame,
/// whether each one is retained.
pub struct FrameSampler {
    step: u64,
    seen: u64,
}

impl FrameSampler {
    /// The sampling step.
    pub closed spec fn step_spec(&self) -> int {
        self.step as int
    }

    /// How many frames have been observed.
    pub closed spec fn seen_spec(&self) -> int {
        self.seen as int
    }

    pub open spec fn wf(&self) -> bool {
        self.step_spec() > 0 && self.seen_spec() >= 0
    }

    /// A sampler at decode position zero.
    pub fn new(step: u64) -> (r: FrameSampler)
        requires
            step > 0,
        ensures
            r.wf(),
            r.step_spec() == step,
            r.seen_spec() == 0,
    {
        FrameSampler { step, seen: 0 }
    }

    /// Observes the next decoded frame; returns whether it is retained.
    pub fn observe(&mut self) -> (keep: bool)
        requires
            old(self).wf(),
            old(self).seen_spec() < u64::MAX,
        ensures
            final(self).wf(),
            final(self).step_spec() == old(self).step_spec(),
            final(self).seen_spec() == old(self).seen_spec() + 1,
            keep == is_retained(old(self).seen_spec(), old(self).step_spec()),
    {
        let retained = (self.seen + 1) % self.step == 0;
        self.seen = self.seen + 1;
        retained
    }

    /// How many frames have been observed.
    pub fn seen(&self) -> (r: u64)
        ensures
            r == self.seen_spec(),
    {
        self.seen
    }

    /// The sampling step.
    pub fn step(&self) -> (r: u64)
        ensures
            r == self.step_spec(),
    {
        self.step
    }
}

} // verus!
