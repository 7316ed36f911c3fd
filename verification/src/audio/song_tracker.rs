//! Tracks where a song is during playback, so that the visualiser can pick
//! the analysis frame matching the audio that is heard.
use std::time::{Duration, Instant};
use vstd::prelude::*;

verus! {

/// `std::time::Instant`: an opaque point in monotonic time.
#[verifier::external_type_specification]
#[verifier::external_body]
pub struct ExInstant(Instant);

/// `Instant::now` reads the clock: nothing is promised of its result.
pub assume_specification[ Instant::now ]() -> Instant;

/// `Instant::elapsed` reads the clock: nothing is promised of its result.
pub assume_specification[ Instant::elapsed ](i: &Instant) -> Duration;

/// `Duration::as_nanos` returns the whole nanoseconds of a duration; the
/// duration is opaque here, so nothing is stated of the number.
pub assume_specification[ Duration::as_nanos ](d: &Duration) -> u128;

/// Nanoseconds in one second.
pub const NANOS_PER_SECOND: u128 = 1_000_000_000;

/// The analysis frame reached after `elapsed_nanos` nanoseconds of playback,
/// for audio sampled at `sample_rate` Hz and analysed every `hop_size`
/// samples: `floor(elapsed * sample_rate / hop_size)`, saturating at
/// `usize::MAX`. A zero hop gives an unbounded quotient (so `usize::MAX`),
/// except when nothing has elapsed or the rate is zero, where it gives 0.
pub open spec fn frame_at(elapsed_nanos: int, sample_rate: int, hop_size: int) -> int {
    if hop_size == 0 {
        if elapsed_nanos * sample_rate == 0 { 0 } else { usize::MAX as int }
    } else {
        let exact = (elapsed_nanos * sample_rate) / (hop_size * NANOS_PER_SECOND);
        if exact > usize::MAX { usize::MAX as int } else { exact }
    }
}

/// Computes [`frame_at`] without overflow.
pub fn frame_for_elapsed(elapsed_nanos: u128, sample_rate: u32, hop_size: usize) -> (frame: usize)
    ensures
        frame == frame_at(elapsed_nanos as int, sample_rate as int, hop_size as int),
{
    if hop_size == 0 {
        if elapsed_nanos == 0 || sample_rate == 0 {
            assert(elapsed_nanos * sample_rate == 0) by (nonlinear_arith)
                requires elapsed_nanos == 0 || sample_rate == 0;
            0
        } else {
            assert(elapsed_nanos * sample_rate != 0) by (nonlinear_arith)
                requires elapsed_nanos != 0, sample_rate != 0;
            usize::MAX
        }
    } else if sample_rate == 0 {
        assert(elapsed_nanos * 0 == 0);
        0
    } else {
        let d: u128 = hop_size as u128 * NANOS_PER_SECOND;
        let q: u128 = elapsed_nanos / d;
        let r: u128 = elapsed_nanos % d;
        let ghost e = elapsed_nanos as int;
        let ghost sr = sample_rate as int;
        let ghost di = d as int;
        proof {
            assert(e == q * di + r) by {
                vstd::arithmetic::div_mod::lemma_fundamental_div_mod(e, di);
            }
        }
        if q > usize::MAX as u128 {
            proof {
                let s = r as int * sr;
                assert(e * sr == (q * sr) * di + s) by (nonlinear_arith)
                    requires e == q * di + r, s == r as int * sr;
                assert(e * sr >= (q * sr) * di) by (nonlinear_arith)
                    requires e * sr == (q * sr) * di + s, s >= 0;
                assert((e * sr) / di >= q * sr) by {
                    vstd::arithmetic::div_mod::lemma_div_is_ordered((q * sr) * di, e * sr, di);
                    vstd::arithmetic::div_mod::lemma_div_multiples_vanish(q * sr, di);
                }
                assert(q * sr >= q) by (nonlinear_arith)
                    requires sr >= 1, q >= 0;
            }
            usize::MAX
        } else {
            assert(r < d);
            assert((r as int) * (sample_rate as int) < (d as int) * 0x1_0000_0000) by (nonlinear_arith)
                requires r < d, sample_rate < 0x1_0000_0000int, r >= 0;
            assert(d <= 0xffff_ffff_ffff_ffff * 1_000_000_000);
            let s: u128 = r * (sample_rate as u128);
            assert((q as int) * (sample_rate as int) <= 0xffff_ffff_ffff_ffff * 0xffff_ffff) by (nonlinear_arith)
                requires q <= 0xffff_ffff_ffff_ffffint, sample_rate <= 0xffff_ffffint;
            let whole: u128 = q * (sample_rate as u128);
            let t: u128 = s / d;
            let total: u128 = whole + t;
            proof {
                let u = s as int % di;
                assert(s as int == t * di + u) by {
                    vstd::arithmetic::div_mod::lemma_fundamental_div_mod(s as int, di);
                }
                assert(e * sr == (q * sr + t) * di + u) by (nonlinear_arith)
                    requires e == q * di + r, s == r * sr, s == t * di + u;
                assert(0 <= u < di) by {
                    vstd::arithmetic::div_mod::lemma_mod_bound(s as int, di);
                }
                vstd::arithmetic::div_mod::lemma_fundamental_div_mod_converse(
                    e * sr, di, q * sr + t, u);
                assert(hop_size as int * NANOS_PER_SECOND == di);
            }
            if total > usize::MAX as u128 {
                usize::MAX
            } else {
                total as usize
            }
        }
    }
}

/// Tracks a song during playback
pub struct SongTracker {
    start_time: Option<Instant>,
    sample_rate: u32,
    hop_size: usize,
}

impl SongTracker {
    /// Whether playback is being tracked.
    pub closed spec fn playing(&self) -> bool {
        self.start_time is Some
    }

    /// The sample rate (Hz) of the tracked song's analysis.
    pub closed spec fn rate(&self) -> u32 {
        self.sample_rate
    }

    /// The hop size (samples per analysis frame) of the tracked song.
    pub closed spec fn hop(&self) -> usize {
        self.hop_size
    }

    /// A stopped tracker for audio analysed at `sample_rate` Hz every
    /// `hop_size` samples.
    pub fn new(sample_rate: u32, hop_size: usize) -> (tracker: Self)
        ensures
            !tracker.playing(),
            tracker.rate() == sample_rate,
            tracker.hop() == hop_size,
    {
        Self { start_time: None, sample_rate, hop_size }
    }

    /// Starts (or restarts) tracking from now.
    pub fn start(&mut self)
        ensures
            final(self).playing(),
            final(self).rate() == old(self).rate(),
            final(self).hop() == old(self).hop(),
    {
        self.start_time = Some(Instant::now());
    }

    /// Stops tracking.
    pub fn stop(&mut self)
        ensures
            !final(self).playing(),
            final(self).rate() == old(self).rate(),
            final(self).hop() == old(self).hop(),
    {
        self.start_time = None;
    }

    /// Whether tracking has been started and not stopped since.
    pub fn is_playing(&self) -> (playing: bool)
        ensures
            playing == self.playing(),
    {
        self.start_time.is_some()
    }

    /// Nanoseconds since tracking started, if it has.
    pub fn playback_nanos(&self) -> (nanos: Option<u128>)
        ensures
            nanos is Some <==> self.playing(),
    {
        match &self.start_time {
            Some(start) => {
                let elapsed = start.elapsed();
                Some(elapsed.as_nanos())
            },
            None => None,
        }
    }

    /// The analysis frame that matches the current playback position: some
    /// [`frame_at`] of the time elapsed since [`SongTracker::start`], with
    /// this tracker's rate and hop; `None` when stopped.
    pub fn target_frame(&self) -> (frame: Option<usize>)
        ensures
            frame is Some <==> self.playing(),
            frame matches Some(f) ==> exists|e: u128|
                f == #[trigger] frame_at(e as int, self.rate() as int, self.hop() as int),
    {
        match self.playback_nanos() {
            Some(nanos) => {
                let f = frame_for_elapsed(nanos, self.sample_rate, self.hop_size);
                assert(f == frame_at(nanos as int, self.rate() as int, self.hop() as int));
                Some(f)
            },
            None => None,
        }
    }
}

/// The frame index never decreases as playback time goes on: for any two
/// elapsed times `a <= b`, the frame at `a` is at most the frame at `b`.
pub proof fn lemma_frame_at_monotonic(a: u128, b: u128, sample_rate: u32, hop_size: usize)
    requires
        a <= b,
    ensures
        frame_at(a as int, sample_rate as int, hop_size as int)
            <= frame_at(b as int, sample_rate as int, hop_size as int),
{
    let sr = sample_rate as int;
    assert(a * sr <= b * sr) by (nonlinear_arith)
        requires a <= b, sr >= 0;
    if hop_size == 0 {
        assert(a * sr >= 0 && b * sr >= 0) by (nonlinear_arith)
            requires sr >= 0, a >= 0, b >= 0;
    } else {
        let d = hop_size as int * NANOS_PER_SECOND;
        vstd::arithmetic::div_mod::lemma_div_is_ordered(a * sr, b * sr, d);
    }
}

/// The frame is the playback position measured in hops: with a non-zero
/// hop, `frame` hops of `hop_size` samples take no longer than the time
/// played, and unless the frame saturated at `usize::MAX`, one more hop
/// would take longer. So the frame is the floor of
/// `elapsed * sample_rate / (hop_size * 1e9)` whenever that fits.
pub proof fn lemma_frame_at_is_position_in_hops(elapsed_nanos: u128, sample_rate: u32, hop_size: usize)
    requires
        hop_size > 0,
    ensures
        0 <= frame_at(elapsed_nanos as int, sample_rate as int, hop_size as int) <= usize::MAX,
        frame_at(elapsed_nanos as int, sample_rate as int, hop_size as int) * (hop_size as int * NANOS_PER_SECOND)
            <= (elapsed_nanos as int) * (sample_rate as int),
        frame_at(elapsed_nanos as int, sample_rate as int, hop_size as int) < usize::MAX ==>
            (elapsed_nanos as int) * (sample_rate as int)
                < (frame_at(elapsed_nanos as int, sample_rate as int, hop_size as int) + 1)
                    * (hop_size as int * NANOS_PER_SECOND),
{
    let x = elapsed_nanos as int * sample_rate as int;
    let d = hop_size as int * NANOS_PER_SECOND;
    assert(x >= 0) by (nonlinear_arith)
        requires x == elapsed_nanos as int * sample_rate as int;
    assert(d > 0) by (nonlinear_arith)
        requires d == hop_size as int * NANOS_PER_SECOND, hop_size > 0;
    let q = x / d;
    vstd::arithmetic::div_mod::lemma_fundamental_div_mod(x, d);
    vstd::arithmetic::div_mod::lemma_mod_bound(x, d);
    vstd::arithmetic::div_mod::lemma_div_pos_is_pos(x, d);
    assert(d * q == q * d) by (nonlinear_arith);
    assert((q + 1) * d == q * d + d) by (nonlinear_arith);
    if q > usize::MAX {
        assert((usize::MAX as int) * d <= q * d) by (nonlinear_arith)
            requires q > usize::MAX, d > 0;
    }
}

} // verus!
