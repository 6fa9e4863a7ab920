//! How the columns of the image are dealt out among the workers.
//!
//! Every worker gets one band: as many neighbouring columns as every other
//! worker, the first band starting at column 0.

use crate::config::RenderConfig;
use vstd::prelude::*;

verus! {

/// Columns in one band.
pub open spec fn band_width(width: int, threads: int) -> int {
    width / threads
}

/// First column of the band of worker `worker`.
pub open spec fn band_start(width: int, threads: int, worker: int) -> int {
    worker * band_width(width, threads)
}

/// The column after the last one of the band of worker `worker`.
pub open spec fn band_end(width: int, threads: int, worker: int) -> int {
    band_start(width, threads, worker) + band_width(width, threads)
}

/// Column `x` belongs to the band of worker `worker`.
pub open spec fn in_band(width: int, threads: int, worker: int, x: int) -> bool {
    band_start(width, threads, worker) <= x < band_end(width, threads, worker)
}

/// Column `x` belongs to the band of some worker.
pub open spec fn in_some_band(width: int, threads: int, x: int) -> bool {
    exists|worker: int| 0 <= worker < threads && #[trigger] in_band(width, threads, worker, x)
}

/// The worker whose band holds column `x`.
pub open spec fn owner_of(width: int, threads: int, x: int) -> int {
    x / band_width(width, threads)
}

/// A band of columns: `start` is its first column, `end` the one after its last.
#[derive(Clone, Copy, Debug, PartialEq, Eq, Structural)]
pub struct Band {
    pub start: u32,
    pub end: u32,
}

/// A band lies between column 0 and the last column, and none is turned around.
pub proof fn lemma_band_within_columns(width: int, threads: int, worker: int)
    requires
        0 <= width,
        0 < threads,
        width % threads == 0,
        0 <= worker < threads,
    ensures
        0 <= band_start(width, threads, worker),
        band_start(width, threads, worker) <= band_end(width, threads, worker),
        band_end(width, threads, worker) <= width,
        band_end(width, threads, worker) == (worker + 1) * band_width(width, threads),
        threads * band_width(width, threads) == width,
{
    let each = band_width(width, threads);
    assert(threads * each == width) by (nonlinear_arith)
        requires
            0 < threads,
            width % threads == 0,
            each == width / threads,
    ;
    assert(0 <= each) by (nonlinear_arith)
        requires
            0 < threads,
            0 <= width,
            each == width / threads,
    ;
    assert(0 <= worker * each && (worker + 1) * each <= threads * each
        && (worker + 1) * each == worker * each + each) by (nonlinear_arith)
        requires
            0 <= worker < threads,
            0 <= each,
    ;
}

/// The bands partition the columns: put together they are the columns from 0
/// up to `width` and nothing else, and no column lies in two of them.
pub proof fn lemma_bands_partition_columns(width: int, threads: int)
    requires
        0 <= width,
        0 < threads,
        width % threads == 0,
    ensures
        forall|x: int| #[trigger] in_some_band(width, threads, x) <==> 0 <= x < width,
        forall|x: int, first: int, second: int|
            #![trigger in_band(width, threads, first, x), in_band(width, threads, second, x)]
            in_band(width, threads, first, x) && in_band(width, threads, second, x) ==> first
                == second,
{
    let each = band_width(width, threads);
    assert forall|x: int| #[trigger] in_some_band(width, threads, x) <==> 0 <= x < width by {
        if 0 <= x < width {
            lemma_owner_holds_column(width, threads, x);
        }
        if in_some_band(width, threads, x) {
            let worker = choose|worker: int|
                0 <= worker < threads && #[trigger] in_band(width, threads, worker, x);
            lemma_band_within_columns(width, threads, worker);
        }
    }
    assert forall|x: int, first: int, second: int|
        #![trigger in_band(width, threads, first, x), in_band(width, threads, second, x)]
        in_band(width, threads, first, x) && in_band(width, threads, second, x) implies first
        == second by {
        assert(first == second) by (nonlinear_arith)
            requires
                first * each <= x < first * each + each,
                second * each <= x < second * each + each,
        ;
    }
}

/// A column of the image lies in the band of its owner, and its owner is one
/// of the workers.
pub proof fn lemma_owner_holds_column(width: int, threads: int, x: int)
    requires
        0 < threads,
        width % threads == 0,
        0 <= x < width,
    ensures
        0 <= owner_of(width, threads, x) < threads,
        in_band(width, threads, owner_of(width, threads, x), x),
{
    let each = band_width(width, threads);
    let owner = owner_of(width, threads, x);
    assert(threads * each == width && 0 < each) by (nonlinear_arith)
        requires
            0 < threads,
            0 <= x < width,
            width % threads == 0,
            each == width / threads,
    ;
    assert(owner * each <= x < owner * each + each && 0 <= owner) by (nonlinear_arith)
        requires
            0 < each,
            0 <= x,
            owner == x / each,
    ;
    assert(owner < threads) by (nonlinear_arith)
        requires
            owner * each <= x,
            x < threads * each,
            0 < each,
    ;
}

/// The band of worker `worker`.
pub fn band(config: &RenderConfig, worker: u32) -> (band: Band)
    requires
        config.valid(),
        worker < config.thread_count,
    ensures
        band.start == band_start(config.width as int, config.thread_count as int, worker as int),
        band.end == band_end(config.width as int, config.thread_count as int, worker as int),
        band.start <= band.end <= config.width,
{
    proof {
        lemma_band_within_columns(
            config.width as int,
            config.thread_count as int,
            worker as int,
        );
    }
    let each: u32 = config.width / config.thread_count;
    let start: u32 = worker * each;
    Band { start, end: start + each }
}

} // verus!
