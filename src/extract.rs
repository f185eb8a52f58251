//! The extraction orchestrator: step, sampling, encoding, in decode order.
use vstd::prelude::*;
use crate::encode::{encodable, encode_error_of, encode_preview, png_of};
use crate::error::ExtractionError;
use crate::raster::RasterFrame;
use crate::sampler::{
    ceil_div, compute_step, is_retained, lemma_select_extend, lemma_selection_shape,
    retained_positions, select_spec,
    step_defined, step_of, FrameSampler, Rational,
};

verus! {

/// A stream's length: `ticks` units of `time_base` seconds each.
#[derive(Clone, Copy, Debug, PartialEq, Eq, Structural)]
pub struct StreamDuration {
    pub ticks: i64,
    pub time_base: Rational,
}

/// What the extraction reads of the selected video stream.
#[derive(Clone, Copy, Debug, PartialEq, Eq, Structural)]
pub struct StreamInfo {
    /// Average frame rate, frames per second.
    pub frame_rate: Rational,
    /// Length in ticks as the container reports it; negative when unknown.
    pub duration_ticks: i64,
    /// Seconds per tick.
    pub time_base: Rational,
}

/// Whether the container's duration can be used as it stands.
pub open spec fn duration_known(info: StreamInfo) -> bool {
    info.duration_ticks >= 0 && info.time_base.num >= 0 && info.time_base.den > 0
}

/// The duration reported for a stream: the container's, or zero seconds when
/// that is missing or meaningless.
pub open spec fn duration_of(info: StreamInfo) -> StreamDuration {
    if duration_known(info) {
        StreamDuration { ticks: info.duration_ticks, time_base: info.time_base }
    } else {
        StreamDuration { ticks: 0, time_base: Rational { num: 1, den: 1 } }
    }
}

/// Computes the duration reported for a stream.
pub fn stream_duration(info: &StreamInfo) -> (r: StreamDuration)
    ensures
        r == duration_of(*info),
{
    if info.duration_ticks >= 0 && info.time_base.num >= 0 && info.time_base.den > 0 {
        StreamDuration { ticks: info.duration_ticks, time_base: info.time_base }
    } else {
        StreamDuration { ticks: 0, time_base: Rational { num: 1, den: 1 } }
    }
}

/// The PNG bytes of one raster frame.
pub open spec fn png_frame(f: RasterFrame) -> Seq<u8> {
    png_of(f.width, f.height, f.data@)
}

/// The previews that a decoded sequence gives: the retained frames, encoded,
/// in decode order.
pub open spec fn previews_of(decoded: Seq<RasterFrame>, step: int) -> Seq<Seq<u8>> {
    select_spec(decoded, step).map_values(|f: RasterFrame| png_frame(f))
}

/// Two extractions of the same stream at the same cadence agree on the step,
/// and give the same number of previews whenever the same number of frames
/// was decoded: that number divided by the step, rounded down.
pub proof fn lemma_extraction_repeatable(
    info: StreamInfo,
    cadence: i32,
    first: Seq<RasterFrame>,
    second: Seq<RasterFrame>,
)
    requires
        step_defined(info.frame_rate, cadence),
        first.len() == second.len(),
    ensures
        previews_of(first, step_of(info.frame_rate, cadence)).len() == previews_of(
            second,
            step_of(info.frame_rate, cadence),
        ).len(),
        previews_of(first, step_of(info.frame_rate, cadence)).len() == first.len() as int
            / step_of(info.frame_rate, cadence),
{
    let step = step_of(info.frame_rate, cadence);
    assert(step > 0) by {
        let r = info.frame_rate;
        assert(ceil_div(r.num as int, r.den as int) >= 1) by (nonlinear_arith)
            requires r.num > 0, r.den > 0;
        assert(ceil_div(r.num as int, r.den as int) * cadence >= 1) by (nonlinear_arith)
            requires ceil_div(r.num as int, r.den as int) >= 1, cadence >= 1;
    }
    lemma_selection_shape(first.len(), step);
    lemma_selection_shape(second.len(), step);
}

/// The outcome of one extraction.
pub struct FrameResult {
    /// The cadence: seconds between two previews.
    pub step_in_seconds: i32,
    /// Frames between two previews.
    pub frame_step: u64,
    /// Length of the stream.
    pub duration: StreamDuration,
    /// The previews as PNG images, in decode order.
    pub frames: Vec<Vec<u8>>,
}

impl FrameResult {
    pub open spec fn previews(&self) -> Seq<Seq<u8>> {
        self.frames@.map_values(|f: Vec<u8>| f@)
    }
}

/// Extraction in progress: decoded frames are announced one at a time, and
/// each retained one is handed over as a raster to be encoded before the next
/// is announced.
pub struct PreviewExtractor {
    sampler: FrameSampler,
    cadence: i32,
    duration: StreamDuration,
    frames: Vec<Vec<u8>>,
}

impl PreviewExtractor {
    pub closed spec fn step_spec(&self) -> int {
        self.sampler.step_spec()
    }

    /// Frames announced so far.
    pub closed spec fn seen_spec(&self) -> int {
        self.sampler.seen_spec()
    }

    /// Whether the last announced frame is retained and awaits its raster.
    pub closed spec fn pending_spec(&self) -> bool {
        self.frames@.len() < self.seen_spec() / self.step_spec()
    }

    pub closed spec fn cadence_spec(&self) -> i32 {
        self.cadence
    }

    pub closed spec fn duration_spec(&self) -> StreamDuration {
        self.duration
    }

    /// The previews encoded so far, in decode order.
    pub closed spec fn previews(&self) -> Seq<Seq<u8>> {
        self.frames@.map_values(|f: Vec<u8>| f@)
    }

    pub closed spec fn wf(&self) -> bool {
        &&& self.sampler.wf()
        &&& self.cadence > 0
        &&& self.frames@.len() <= self.seen_spec() / self.step_spec() <= self.frames@.len() + 1
        &&& self.pending_spec() ==> is_retained(self.seen_spec() - 1, self.step_spec())
    }

    /// Starts an extraction of a stream at one preview every `cadence`
    /// seconds. Fails when the frame rate or the cadence gives no step.
    pub fn new(info: &StreamInfo, cadence: i32) -> (r: Result<PreviewExtractor, ExtractionError>)
        ensures
            r is Ok <==> step_defined(info.frame_rate, cadence),
            r is Err ==> r->Err_0 == ExtractionError::InvalidStep,
            r is Ok ==> ({
                let e = r->Ok_0;
                &&& e.wf()
                &&& e.step_spec() == step_of(info.frame_rate, cadence)
                &&& e.seen_spec() == 0
                &&& !e.pending_spec()
                &&& e.previews().len() == 0
                &&& e.cadence_spec() == cadence
                &&& e.duration_spec() == duration_of(*info)
            }),
    {
        let step = match compute_step(info.frame_rate, cadence) {
            Ok(s) => s,
            Err(e) => {
                return Err(e);
            },
        };
        let r = PreviewExtractor {
            sampler: FrameSampler::new(step),
            cadence,
            duration: stream_duration(info),
            frames: Vec::new(),
        };
        assert(r.previews() =~= Seq::<Seq<u8>>::empty());
        Ok(r)
    }

    /// Announces the next decoded frame; returns whether it is retained, in
    /// which case its raster must be handed to `accept` next.
    pub fn next_frame(&mut self) -> (keep: bool)
        requires
            old(self).wf(),
            !old(self).pending_spec(),
            old(self).seen_spec() < u64::MAX,
        ensures
            final(self).wf(),
            keep == is_retained(old(self).seen_spec(), old(self).step_spec()),
            final(self).pending_spec() == keep,
            final(self).seen_spec() == old(self).seen_spec() + 1,
            final(self).step_spec() == old(self).step_spec(),
            final(self).previews() == old(self).previews(),
            final(self).cadence_spec() == old(self).cadence_spec(),
            final(self).duration_spec() == old(self).duration_spec(),
    {
        let ghost n = self.sampler.seen_spec();
        let ghost step = self.sampler.step_spec();
        let retained = self.sampler.observe();
        proof {
            if retained {
                assert((n + 1) / step == n / step + 1) by (nonlinear_arith)
                    requires (n + 1) % step == 0, step > 0, n >= 0;
            } else {
                assert((n + 1) / step == n / step) by (nonlinear_arith)
                    requires (n + 1) % step != 0, step > 0, n >= 0;
            }
        }
        retained
    }

    /// Encodes the raster of the retained frame just announced and appends it
    /// to the previews.
    pub fn accept(&mut self, raster: &RasterFrame) -> (r: Result<(), ExtractionError>)
        requires
            old(self).wf(),
            old(self).pending_spec(),
        ensures
            r is Ok <==> encodable(*raster),
            r is Err ==> r->Err_0 == ExtractionError::Encode(encode_error_of(*raster)),
            r is Ok ==> {
                &&& final(self).wf()
                &&& !final(self).pending_spec()
                &&& final(self).previews() == old(self).previews().push(png_frame(*raster))
                &&& final(self).seen_spec() == old(self).seen_spec()
                &&& final(self).step_spec() == old(self).step_spec()
                &&& final(self).cadence_spec() == old(self).cadence_spec()
                &&& final(self).duration_spec() == old(self).duration_spec()
            },
    {
        match encode_preview(raster) {
            Ok(png) => {
                self.frames.push(png);
                assert(self.previews() =~= old(self).previews().push(png_frame(*raster)));
                Ok(())
            },
            Err(e) => Err(ExtractionError::Encode(e)),
        }
    }

    /// Frames announced so far.
    pub fn seen(&self) -> (r: u64)
        ensures
            r == self.seen_spec(),
    {
        self.sampler.seen()
    }

    /// Whether a retained frame awaits its raster.
    pub fn is_pending(&self) -> (r: bool)
        requires
            self.wf(),
        ensures
            r == self.pending_spec(),
    {
        let produced = self.frames.len() as u64;
        produced < self.sampler.seen() / self.sampler.step()
    }

    /// Ends the extraction and hands out its result.
    pub fn finish(self) -> (r: FrameResult)
        requires
            self.wf(),
            !self.pending_spec(),
        ensures
            r.step_in_seconds == self.cadence_spec(),
            r.frame_step == self.step_spec(),
            r.duration == self.duration_spec(),
            r.previews() == self.previews(),
            r.previews().len() == self.seen_spec() / self.step_spec(),
    {
        let frame_step = self.sampler.step();
        FrameResult {
            step_in_seconds: self.cadence,
            frame_step,
            duration: self.duration,
            frames: self.frames,
        }
    }
}

/// Whether the first `k` frames of a sequence can all be encoded.
pub open spec fn encodable_prefix(frames: Seq<RasterFrame>, k: int) -> bool {
    forall|j: int| 0 <= j < k ==> encodable(#[trigger] frames[j])
}

/// Whether frame `k` is the first of a sequence that cannot be encoded.
pub open spec fn first_failure_at(frames: Seq<RasterFrame>, k: int) -> bool {
    0 <= k < frames.len() && !encodable(frames[k]) && encodable_prefix(frames, k)
}

/// The selection out of a prefix of the decoded frames is a prefix of the
/// selection out of all of them.
proof fn lemma_select_prefix(s: Seq<RasterFrame>, m: int, step: int)
    requires
        step > 0,
        0 <= m <= s.len(),
    ensures
        select_spec(s.subrange(0, m), step).len() <= select_spec(s, step).len(),
        forall|j: int|
            0 <= j < select_spec(s.subrange(0, m), step).len() ==> #[trigger] select_spec(
                s.subrange(0, m),
                step,
            )[j] == select_spec(s, step)[j],
{
    let sub = s.subrange(0, m);
    assert(m / step <= s.len() as int / step) by (nonlinear_arith)
        requires m <= s.len(), step > 0, m >= 0;
    lemma_selection_shape(sub.len(), step);
    assert forall|j: int| 0 <= j < select_spec(sub, step).len() implies #[trigger] select_spec(
        sub,
        step,
    )[j] == select_spec(s, step)[j] by {
        assert(retained_positions(sub.len(), step)[j] < m);
    }
}

/// Generates the previews of a stream from its decoded frames, already
/// converted to RGBA, in decode order: one frame out of every `step`, where
/// `step` is the frame rate rounded up times `cadence`, starting at position
/// `step - 1`. It succeeds exactly when the step is defined and every retained
/// frame can be encoded; otherwise the first retained frame that cannot be
/// encoded gives the error.
pub fn generate_previews(info: &StreamInfo, cadence: i32, decoded: &Vec<RasterFrame>) -> (r: Result<
    FrameResult,
    ExtractionError,
>)
    ensures
        !step_defined(info.frame_rate, cadence) ==> r == Err::<FrameResult, ExtractionError>(
            ExtractionError::InvalidStep,
        ),
        step_defined(info.frame_rate, cadence) ==> (r is Ok <==> ({
            let sel = select_spec(decoded@, step_of(info.frame_rate, cadence));
            encodable_prefix(sel, sel.len() as int)
        })),
        step_defined(info.frame_rate, cadence) ==> forall|k: int|
            #[trigger] first_failure_at(select_spec(decoded@, step_of(info.frame_rate, cadence)), k)
                ==> r == Err::<FrameResult, ExtractionError>(
                ExtractionError::Encode(
                    encode_error_of(select_spec(decoded@, step_of(info.frame_rate, cadence))[k]),
                ),
            ),
        step_defined(info.frame_rate, cadence) && decoded@.len() < step_of(info.frame_rate, cadence)
            ==> r is Ok && r->Ok_0.frames@.len() == 0,
        r is Ok ==> ({
            let res = r->Ok_0;
            &&& res.step_in_seconds == cadence
            &&& res.frame_step == step_of(info.frame_rate, cadence)
            &&& res.duration == duration_of(*info)
            &&& res.previews() == previews_of(decoded@, step_of(info.frame_rate, cadence))
            &&& res.frames@.len() == decoded@.len() as int / step_of(info.frame_rate, cadence)
        }),
{
    let step = match compute_step(info.frame_rate, cadence) {
        Ok(s) => s,
        Err(e) => {
            return Err(e);
        },
    };
    let ghost st = step as int;
    let ghost all = select_spec(decoded@, st);
    proof {
        lemma_selection_shape(decoded@.len(), st);
        if decoded@.len() < st {
            assert(decoded@.len() as int / st == 0) by (nonlinear_arith)
                requires 0 <= decoded@.len() < st;
        }
    }
    let n = decoded.len();
    let mut frames: Vec<Vec<u8>> = Vec::new();
    let mut i: usize = 0;
    while i < n
        invariant
            n == decoded@.len(),
            i <= n,
            st == step,
            step > 0,
            step_defined(info.frame_rate, cadence),
            st == step_of(info.frame_rate, cadence),
            all == select_spec(decoded@, st),
            decoded@.len() < st ==> all.len() == 0,
            frames@.map_values(|f: Vec<u8>| f@) == previews_of(decoded@.subrange(0, i as int), st),
            encodable_prefix(all, select_spec(decoded@.subrange(0, i as int), st).len() as int),
            select_spec(decoded@.subrange(0, i as int), st).len() <= all.len(),
        decreases n - i,
    {
        proof {
            lemma_select_extend(decoded@, i as int, st);
            lemma_select_prefix(decoded@, i + 1, st);
        }
        let ghost before = select_spec(decoded@.subrange(0, i as int), st);
        if ((i as u128) + 1) % (step as u128) == 0 {
            let ghost k = before.len() as int;
            assert(is_retained(i as int, st));
            assert(select_spec(decoded@.subrange(0, i + 1), st) == before.push(decoded@[i as int]));
            assert(select_spec(decoded@.subrange(0, i + 1), st)[k] == decoded@[i as int]);
            assert(all[k] == decoded@[i as int]);
            match encode_preview(&decoded[i]) {
                Ok(png) => {
                    let ghost old_frames = frames@;
                    frames.push(png);
                    assert(previews_of(decoded@.subrange(0, i + 1), st) =~= previews_of(
                        decoded@.subrange(0, i as int),
                        st,
                    ).push(png_frame(decoded@[i as int])));
                    assert(frames@.map_values(|f: Vec<u8>| f@) =~= previews_of(
                        decoded@.subrange(0, i + 1),
                        st,
                    ));
                },
                Err(e) => {
                    proof {
                        assert(!encodable(all[k]));
                        assert forall|k2: int| #[trigger] first_failure_at(all, k2) implies k2 == k by {
                            if k2 > k {
                                assert(encodable(all[k]));
                            }
                        }
                        assert(!encodable_prefix(all, all.len() as int));
                    }
                    return Err(ExtractionError::Encode(e));
                },
            }
        } else {
            assert(!is_retained(i as int, st));
        }
        i += 1;
    }
    assert(decoded@.subrange(0, n as int) =~= decoded@);
    let res = FrameResult {
        step_in_seconds: cadence,
        frame_step: step,
        duration: stream_duration(info),
        frames,
    };
    assert(res.previews() == frames@.map_values(|f: Vec<u8>| f@));
    Ok(res)
}

} // verus!
