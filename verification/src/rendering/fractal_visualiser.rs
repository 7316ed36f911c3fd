//! Dynamic render quality: how coarse (in pixels per sample) the next pass
//! over the canvas is, chosen from how long the last pass took.
use std::time::Instant;
use vstd::prelude::*;

verus! {

/// Desired time for an initial render, in nanoseconds (0.2 s).
pub const TARGET_INITIAL_NANOS: u128 = 200_000_000;
/// Desired time for each incremental render, in nanoseconds (0.1 s).
pub const TARGET_INCREMENTAL_NANOS: u128 = 100_000_000;
/// The finest quality: one sample per pixel.
pub const MIN_QUALITY: usize = 1;
/// The coarsest quality an initial render is pushed to.
pub const MAX_QUALITY: usize = 256;

/// The quality of the next incremental pass after one at quality `q` took
/// `elapsed` nanoseconds: a pass under half the target drops to a quarter,
/// one under the target halves, a slower one steps down by one; never
/// below [`MIN_QUALITY`], which is final.
pub open spec fn next_incremental_quality(q: int, elapsed: int) -> int {
    let target = TARGET_INCREMENTAL_NANOS as int;
    let candidate = if q <= MIN_QUALITY {
        MIN_QUALITY as int
    } else if 2 * elapsed < target {
        q / 4
    } else if elapsed < target {
        q / 2
    } else {
        q - 1
    };
    if candidate < MIN_QUALITY { MIN_QUALITY as int } else { candidate }
}

/// Computes [`next_incremental_quality`].
pub fn incremental_quality(q: usize, elapsed_nanos: u128) -> (next: usize)
    ensures
        next == next_incremental_quality(q as int, elapsed_nanos as int),
{
    if q <= MIN_QUALITY {
        return MIN_QUALITY;
    }
    let candidate = if elapsed_nanos < TARGET_INCREMENTAL_NANOS / 2 {
        q / 4
    } else if elapsed_nanos < TARGET_INCREMENTAL_NANOS {
        q / 2
    } else {
        q - 1
    };
    if candidate < MIN_QUALITY {
        MIN_QUALITY
    } else {
        candidate
    }
}

/// Whether an initial render that has run `elapsed` nanoseconds with
/// `progress_permille` thousandths done is too slow: past 1.5 times the
/// target with under 70% done.
pub open spec fn initial_too_slow(elapsed: int, progress_permille: int) -> bool {
    elapsed > 3 * (TARGET_INITIAL_NANOS as int) / 2 && progress_permille < 700
}

/// The coarser quality a too slow initial render restarts at: `q` raised by
/// ten steps per remaining whole of the render, rounded up, at most
/// [`MAX_QUALITY`].
pub open spec fn boosted_quality(q: int, progress_permille: int) -> int {
    let increase = (1000 - progress_permille + 99) / 100;
    if q + increase > MAX_QUALITY { MAX_QUALITY as int } else { q + increase }
}

/// Computes [`boosted_quality`].
pub fn boost_quality(q: usize, progress_permille: u32) -> (next: usize)
    requires
        progress_permille < 700,
    ensures
        next == boosted_quality(q as int, progress_permille as int),
{
    let increase = ((1000 - progress_permille + 99) / 100) as usize;
    if q >= MAX_QUALITY || q + increase > MAX_QUALITY {
        MAX_QUALITY
    } else {
        q + increase
    }
}

/// What an initial render does after `elapsed` nanoseconds with
/// `progress_permille` thousandths done at quality `q`: if it is too slow,
/// restart at the boosted quality, else carry on (`None`).
pub open spec fn initial_step(elapsed: int, progress_permille: int, q: int) -> Option<int> {
    if initial_too_slow(elapsed, progress_permille) {
        Some(boosted_quality(q, progress_permille))
    } else {
        None
    }
}

/// A quality, as an integer.
pub open spec fn quality_int(q: Option<usize>) -> Option<int> {
    match q {
        Some(v) => Some(v as int),
        None => None,
    }
}

/// Decides, for an initial render at `quality` that has run
/// `elapsed_nanos` nanoseconds with `progress_permille` thousandths done,
/// whether to restart it coarser, and at which quality.
pub fn initial_render_step(elapsed_nanos: u128, progress_permille: u32, quality: usize) -> (raise: Option<usize>)
    ensures
        (raise is Some) == initial_too_slow(elapsed_nanos as int, progress_permille as int),
        raise matches Some(q) ==> q == boosted_quality(quality as int, progress_permille as int),
        quality_int(raise) == initial_step(elapsed_nanos as int, progress_permille as int, quality as int),
{
    if elapsed_nanos > TARGET_INITIAL_NANOS * 3 / 2 && progress_permille < 700 {
        Some(boost_quality(quality, progress_permille))
    } else {
        None
    }
}

/// Tracks the time of the render in progress.
pub struct DynamicQualityManager {
    start_of_render: Instant,
}

/// Nanoseconds since `start`, as the clock reads now: nothing is stated of
/// the number, which depends on when the call is made.
fn nanos_since(start: &Instant) -> u128 {
    let elapsed = start.elapsed();
    elapsed.as_nanos()
}

impl DynamicQualityManager {
    /// A manager timing from now. Its only state is the instant it was
    /// made, which is opaque, so nothing more is stated of it.
    pub fn new() -> Self {
        Self { start_of_render: Instant::now() }
    }

    /// Restart timing from now, for a render that starts now. The new start
    /// is a reading of the clock, which is opaque, so no clause states it.
    pub fn start(&mut self) {
        self.start_of_render = Instant::now();
    }

    /// After an incremental render finished, lower `next_quality` as
    /// [`next_incremental_quality`] says for the time the render took.
    pub fn finished_incremental_render(&self, next_quality: &mut usize)
        ensures
            exists|e: u128| *final(next_quality) == #[trigger] next_incremental_quality(*old(next_quality) as int, e as int),
    {
        let elapsed = nanos_since(&self.start_of_render);
        *next_quality = incremental_quality(*next_quality, elapsed);
    }

    /// While an initial render runs: if it is too slow, raise
    /// `visualiser_quality` (coarser, faster) and return `true`, else keep
    /// it and return `false`.
    pub fn while_initial_render(&self, progress_permille: u32, visualiser_quality: &mut usize) -> (raised: bool)
        ensures
            raised ==> progress_permille < 700
                && *final(visualiser_quality) == boosted_quality(*old(visualiser_quality) as int, progress_permille as int),
            !raised ==> *final(visualiser_quality) == *old(visualiser_quality),
            progress_permille >= 700 ==> !raised,
            exists|e: u128| raised == #[trigger] initial_too_slow(e as int, progress_permille as int),
            exists|e: u128| #[trigger] initial_step(e as int, progress_permille as int, *old(visualiser_quality) as int)
                == (if raised { Some(*final(visualiser_quality) as int) } else { None }),
    {
        let elapsed = nanos_since(&self.start_of_render);
        let ghost before = *visualiser_quality;
        match initial_render_step(elapsed, progress_permille, *visualiser_quality) {
            Some(q) => {
                *visualiser_quality = q;
                assert(initial_too_slow(elapsed as int, progress_permille as int));
                assert(initial_step(elapsed as int, progress_permille as int, before as int) == Some(q as int));
                true
            },
            None => {
                assert(!initial_too_slow(elapsed as int, progress_permille as int));
                assert(initial_step(elapsed as int, progress_permille as int, before as int) == None::<int>);
                false
            },
        }
    }
}

/// Decides how to improve a render's quality, for a visualiser whose
/// current render has `finished` or not and was started at
/// `last_rendered_quality`, whose quality setting is `quality`, and which
/// adapts its quality if it has a `manager`. Returns the quality to restart
/// the render at, if it should be restarted.
///
/// - While a render runs at a quality other than the setting, it is left
///   to finish.
/// - While a render at the setting runs too slowly (see
///   [`DynamicQualityManager::while_initial_render`]), the setting is
///   raised and the render restarts at it.
/// - Once a render finished above the finest quality, the next pass runs at
///   the lower quality [`next_incremental_quality`] gives; the setting is
///   kept.
pub fn improve_quality_plan(
    manager: &Option<DynamicQualityManager>,
    finished: bool,
    last_rendered_quality: usize,
    quality: &mut usize,
    progress_permille: u32,
) -> (restart: Option<usize>)
    ensures
        !finished && (last_rendered_quality != *old(quality) || manager is None) ==>
            restart is None && *final(quality) == *old(quality),
        !finished && last_rendered_quality == *old(quality) && manager is Some ==> {
            ||| restart is None && *final(quality) == *old(quality)
            ||| progress_permille < 700 && restart == Some(*final(quality))
                && *final(quality) == boosted_quality(*old(quality) as int, progress_permille as int)
        },
        !finished && last_rendered_quality == *old(quality) && manager is Some ==> exists|e: u128|
            quality_int(restart) == #[trigger] initial_step(e as int, progress_permille as int, *old(quality) as int),
        !finished && progress_permille >= 700 ==> restart is None && *final(quality) == *old(quality),
        finished && (last_rendered_quality == MIN_QUALITY || manager is None) ==>
            restart is None && *final(quality) == *old(quality),
        finished && last_rendered_quality != MIN_QUALITY && manager is Some ==>
            *final(quality) == *old(quality) && (restart matches Some(q) && exists|e: u128|
                q == #[trigger] next_incremental_quality(last_rendered_quality as int, e as int)),
{
    if !finished {
        if last_rendered_quality != *quality {
            return None;
        }
        if let Some(m) = manager {
            if m.while_initial_render(progress_permille, quality) {
                return Some(*quality);
            }
        }
        return None;
    }
    if last_rendered_quality == MIN_QUALITY {
        return None;
    }
    match manager {
        Some(m) => {
            let mut new_quality = last_rendered_quality;
            m.finished_incremental_render(&mut new_quality);
            Some(new_quality)
        },
        None => None,
    }
}

/// Each incremental pass above the finest quality is strictly finer than
/// the one before and never finer than the finest, so passes reach full
/// quality after at most `q - 1` of them, and stay there.
pub proof fn lemma_incremental_quality_converges(q: int, elapsed: int)
    requires
        q >= MIN_QUALITY,
    ensures
        MIN_QUALITY <= next_incremental_quality(q, elapsed) <= q,
        q > MIN_QUALITY ==> next_incremental_quality(q, elapsed) < q,
        q == MIN_QUALITY ==> next_incremental_quality(q, elapsed) == MIN_QUALITY,
{
}

/// A too slow initial render always restarts coarser than it ran (unless
/// already at the coarsest quality), and never beyond [`MAX_QUALITY`].
pub proof fn lemma_boost_coarsens(q: int, progress_permille: int)
    requires
        MIN_QUALITY <= q,
        0 <= progress_permille < 700,
    ensures
        q < MAX_QUALITY ==> q < boosted_quality(q, progress_permille) <= MAX_QUALITY,
        q >= MAX_QUALITY ==> boosted_quality(q, progress_permille) == MAX_QUALITY,
{
}

} // verus!
