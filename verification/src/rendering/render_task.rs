//! Regions of the canvas handed to render threads, and how many threads run.
use vstd::prelude::*;

verus! {

/// The range of `x` and `y` pixel values a render task runs on.
///
/// Both ranges are inclusive: a task visits every row from `start_y` to
/// `end_y` and every column from `start_x` to `end_x`.
pub struct TaskRegion {
    start_y: usize,
    end_y: usize,
    start_x: usize,
    end_x: usize,
}

impl TaskRegion {
    /// First row of the region.
    pub closed spec fn first_row(&self) -> int {
        self.start_y as int
    }

    /// Last row of the region (inclusive).
    pub closed spec fn last_row(&self) -> int {
        self.end_y as int
    }

    /// First column of the region.
    pub closed spec fn first_col(&self) -> int {
        self.start_x as int
    }

    /// Last column of the region (inclusive).
    pub closed spec fn last_col(&self) -> int {
        self.end_x as int
    }

    /// The region starting at row `start_y` and column `start_x`, ending
    /// `height` rows and `width` columns further on.
    pub fn new(start_y: usize, height: usize, start_x: usize, width: usize) -> (region: Self)
        requires
            start_y + height <= usize::MAX,
            start_x + width <= usize::MAX,
        ensures
            region.first_row() == start_y,
            region.last_row() == start_y + height,
            region.first_col() == start_x,
            region.last_col() == start_x + width,
    {
        Self { start_y, end_y: start_y + height, start_x, end_x: start_x + width }
    }

    /// The rows `(first, last)` the region covers, both inclusive.
    pub fn rows(&self) -> (rows: (usize, usize))
        ensures
            rows.0 == self.first_row(),
            rows.1 == self.last_row(),
    {
        (self.start_y, self.end_y)
    }

    /// The columns `(first, last)` the region covers, both inclusive.
    pub fn cols(&self) -> (cols: (usize, usize))
        ensures
            cols.0 == self.first_col(),
            cols.1 == self.last_col(),
    {
        (self.start_x, self.end_x)
    }
}

/// The first row given to thread `t` of `threads` on an image `height` rows
/// high: every thread but the last gets `height / threads` rows.
pub open spec fn thread_first_row(t: int, threads: int, height: int) -> int {
    t * (height / threads)
}

/// The last row given to thread `t`: the last thread also takes the rows
/// left over by the division.
pub open spec fn thread_last_row(t: int, threads: int, height: int) -> int {
    if t < threads - 1 {
        (t + 1) * (height / threads)
    } else {
        height
    }
}

/// The region thread `t` of `threads` renders on an image of
/// `image_width` x `image_height` pixels.
pub fn thread_region(t: usize, threads: usize, image_width: usize, image_height: usize) -> (region: TaskRegion)
    requires
        0 < threads,
        t < threads,
    ensures
        region.first_row() == thread_first_row(t as int, threads as int, image_height as int),
        region.last_row() == thread_last_row(t as int, threads as int, image_height as int),
        region.first_col() == 0,
        region.last_col() == image_width,
{
    let thread_height = image_height / threads;
    proof {
        assert(t * thread_height <= image_height) by (nonlinear_arith)
            requires t < threads, thread_height == image_height / threads, threads > 0;
        assert((t + 1) * thread_height <= image_height) by (nonlinear_arith)
            requires t < threads, thread_height == image_height / threads, threads > 0;
    }
    let start = t * thread_height;
    let height = if t < threads - 1 {
        thread_height
    } else {
        image_height - start
    };
    proof {
        assert((t + 1) * thread_height == t * thread_height + thread_height) by (nonlinear_arith);
    }
    TaskRegion::new(start, height, 0, image_width)
}

/// The regions of all `threads` render threads, in thread order.
pub fn split_rows(threads: usize, image_width: usize, image_height: usize) -> (regions: Vec<TaskRegion>)
    requires
        0 < threads,
    ensures
        regions.len() == threads,
        forall|t: int| 0 <= t < threads ==> {
            &&& #[trigger] regions[t].first_row() == thread_first_row(t, threads as int, image_height as int)
            &&& regions[t].last_row() == thread_last_row(t, threads as int, image_height as int)
            &&& regions[t].first_col() == 0
            &&& regions[t].last_col() == image_width
        },
{
    let mut regions: Vec<TaskRegion> = Vec::new();
    let mut t: usize = 0;
    while t < threads
        invariant
            t <= threads,
            regions.len() == t,
            forall|k: int| 0 <= k < t ==> {
                &&& #[trigger] regions[k].first_row() == thread_first_row(k, threads as int, image_height as int)
                &&& regions[k].last_row() == thread_last_row(k, threads as int, image_height as int)
                &&& regions[k].first_col() == 0
                &&& regions[k].last_col() == image_width
            },
        decreases threads - t,
    {
        regions.push(thread_region(t, threads, image_width, image_height));
        t = t + 1;
    }
    regions
}

/// The thread regions chain across the whole image: the first starts at
/// row 0, each one ends on the row where the next one starts, and the last
/// ends on row `height`.
pub proof fn lemma_thread_rows_cover(threads: usize, height: usize, t: usize)
    requires
        0 < threads,
        t < threads,
    ensures
        thread_first_row(0, threads as int, height as int) == 0,
        t + 1 < threads ==> thread_last_row(t as int, threads as int, height as int)
            == thread_first_row(t + 1, threads as int, height as int),
        thread_last_row(threads - 1, threads as int, height as int) == height,
        thread_first_row(t as int, threads as int, height as int)
            <= thread_last_row(t as int, threads as int, height as int),
{
    let q = height as int / threads as int;
    assert(0 * q == 0);
    assert(t * q <= (t + 1) * q) by (nonlinear_arith) requires q >= 0;
    assert(t * q <= height) by (nonlinear_arith)
        requires t < threads, q == height as int / threads as int, threads > 0;
}

/// How many render threads `physical_cores` cores allow: one core is left
/// for the window, so there is no render thread on a single core.
pub open spec fn threads_for(physical_cores: int) -> Option<int> {
    if physical_cores >= 2 { Some(physical_cores - 1) } else { None }
}

/// Computes [`threads_for`].
pub fn render_threads_for_cores(physical_cores: usize) -> (threads: Option<usize>)
    ensures
        threads matches Some(t) ==> threads_for(physical_cores as int) == Some(t as int),
        threads is None <==> threads_for(physical_cores as int) is None,
{
    if physical_cores >= 2 {
        Some(physical_cores - 1)
    } else {
        None
    }
}

/// `num_cpus::get_physical`: the number of physical cores of this machine,
/// which its documentation and source promise is at least 1.
#[verifier::external_body]
fn physical_cores() -> (cores: usize)
    ensures
        cores >= 1,
{
    num_cpus::get_physical()
}

/// The number of render threads for this machine: one less than its
/// physical cores, or `None` on a single-core machine (where no render
/// thread can be started). The core count is the machine's, so the
/// contract says the result is [`threads_for`] of some count of at least
/// one core; [`render_threads_for_cores`] gives it for each count.
pub fn render_thread_count() -> (threads: Option<usize>)
    ensures
        threads matches Some(t) ==> t >= 1,
        exists|cores: usize| cores >= 1 && (#[trigger] threads_for(cores as int)) == (match threads {
            Some(t) => Some(t as int),
            None => None::<int>,
        }),
{
    let cores = physical_cores();
    let threads = render_threads_for_cores(cores);
    assert(threads_for(cores as int) == (match threads {
        Some(t) => Some(t as int),
        None => None::<int>,
    }));
    threads
}

} // verus!
