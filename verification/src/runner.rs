//! Window planning for the batched concurrent runner.
//!
//! Both pipelines execute their work items in fixed-width windows: all items
//! of a window run together, and the next window is admitted only once the
//! previous window has fully drained. The functions here plan those windows;
//! they are the only source of window bounds in the library.

use vstd::prelude::*;

verus! {

/// Default width of one window of concurrently executed work items.
pub const DEFAULT_CONCURRENCY: usize = 20;

/// Lower bound (inclusive) of window `k` at width `w`.
pub open spec fn window_lo(k: nat, w: nat) -> nat {
    k * w
}

/// Upper bound (exclusive) of window `k` over `n` items at width `w`:
/// clamped to the item count, never wrapped past it.
pub open spec fn window_hi(k: nat, w: nat, n: nat) -> nat {
    if k * w + w <= n {
        k * w + w
    } else {
        n
    }
}

/// How many windows cover `n` items at width `w`: the ceiling of `n / w`.
pub open spec fn window_count(n: nat, w: nat) -> nat
    recommends
        w > 0,
{
    if n == 0 {
        0
    } else {
        (((n - 1) / (w as int)) + 1) as nat
    }
}

/// Number of windows the runner executes over `n` items at width `w`.
pub fn num_windows(n: usize, w: usize) -> (r: usize)
    requires
        w > 0,
    ensures
        r == window_count(n as nat, w as nat),
{
    if n == 0 {
        0
    } else {
        (n - 1) / w + 1
    }
}

/// The window that covers work item `i` at width `w`.
pub open spec fn item_window(i: nat, w: nat) -> nat
    recommends
        w > 0,
{
    i / w
}

/// The discovery pipeline's stop predicate: the accumulation budget is
/// exceeded once the accumulator holds strictly more than `limit` entries.
pub fn should_stop(count: usize, limit: usize) -> (r: bool)
    ensures
        r == (count > limit),
{
    count > limit
}

/// Bounds of the window that starts at item `start`: exactly the remaining
/// items when fewer than `w` remain, and the next `w` items otherwise.
pub fn window_bounds(start: usize, w: usize, n: usize) -> (r: (usize, usize))
    requires
        start < n,
        w > 0,
    ensures
        r.0 == start,
        start < r.1 <= n,
        r.1 - r.0 <= w,
        r.1 == if start + w <= n {
            (start + w) as int
        } else {
            n as int
        },
{
    if n - start > w {
        (start, start + w)
    } else {
        (start, n)
    }
}

/// The single gate through which the discovery orchestrator admits a new
/// window. A window starting at `next_start` is admitted if and only if work
/// items remain and the accumulated count has not yet exceeded the soft limit
/// `limit`; so no window ever starts once the accumulator holds more than
/// `limit` entries, although the window that crosses the threshold runs to
/// completion and may overshoot it.
pub fn admit_window(next_start: usize, n: usize, w: usize, count: usize, limit: usize) -> (r: Option<
    (usize, usize),
>)
    requires
        w > 0,
    ensures
        r is Some <==> (next_start < n && count <= limit),
        r matches Some(win) ==> {
            &&& win.0 == next_start
            &&& next_start < win.1 <= n
            &&& win.1 - win.0 <= w
            &&& win.1 == if next_start + w <= n {
                (next_start + w) as int
            } else {
                n as int
            }
        },
{
    if next_start < n && !should_stop(count, limit) {
        Some(window_bounds(next_start, w, n))
    } else {
        None
    }
}

/// Law (windowing correctness): at width `w`, `n` work items are covered by
/// exactly `window_count(n, w)` windows, the ceiling of `n / w`. Window `k`
/// is the contiguous, non-empty slice `[k*w, min(k*w + w, n))`; consecutive
/// windows adjoin, the first starts at item 0 and the last ends exactly at
/// `n`. The last window's size is `n % w`, or `w` itself when `w` divides
/// `n`. Every item `i` lies in window `i / w` and in no other.
pub proof fn lemma_windows_partition(n: nat, w: nat)
    requires
        w > 0,
    ensures
        forall|k: nat|
            k < window_count(n, w) ==> window_lo(k, w) < #[trigger] window_hi(k, w, n) <= n,
        forall|k: nat|
            k < window_count(n, w) ==> #[trigger] window_hi(k, w, n) - window_lo(k, w) <= w,
        forall|k: nat|
            0 < k < window_count(n, w) ==> #[trigger] window_lo(k, w) == window_hi(
                (k - 1) as nat,
                w,
                n,
            ),
        n > 0 ==> window_lo(0, w) == 0,
        n > 0 ==> window_hi((window_count(n, w) - 1) as nat, w, n) == n,
        n > 0 ==> window_hi((window_count(n, w) - 1) as nat, w, n) - window_lo(
            (window_count(n, w) - 1) as nat,
            w,
        ) == if n % w == 0 {
            w as int
        } else {
            (n % w) as int
        },
        forall|i: nat|
            i < n ==> window_lo(#[trigger] item_window(i, w), w) <= i < window_hi(
                item_window(i, w),
                w,
                n,
            ) && item_window(i, w) < window_count(n, w),
        forall|k: nat, i: nat|
            #![trigger window_hi(k, w, n), item_window(i, w)]
            i < n && window_lo(k, w) <= i < window_hi(k, w, n) ==> k == item_window(i, w),
{
    if n > 0 {
        let q = (n - 1) as nat / w;
        let r = (n - 1) as nat % w;
        vstd::arithmetic::div_mod::lemma_fundamental_div_mod((n - 1) as int, w as int);
        assert((n - 1) as int == w * q + r);
        assert(r < w) by {
            vstd::arithmetic::div_mod::lemma_mod_bound((n - 1) as int, w as int);
        }
        assert(window_count(n, w) == q + 1);
        assert forall|k: nat| k < window_count(n, w) implies window_lo(k, w) < #[trigger] window_hi(
            k,
            w,
            n,
        ) <= n && window_hi(k, w, n) - window_lo(k, w) <= w by {
            assert(k <= q);
            assert(k * w <= q * w) by (nonlinear_arith)
                requires
                    k <= q,
                    w > 0,
            ;
            assert(q * w == w * q) by (nonlinear_arith);
            assert(k * w <= n - 1);
        }
        assert forall|k: nat| 0 < k < window_count(n, w) implies #[trigger] window_lo(k, w)
            == window_hi((k - 1) as nat, w, n) by {
            assert(k <= q);
            assert(k * w <= q * w) by (nonlinear_arith)
                requires
                    k <= q,
                    w > 0,
            ;
            assert(q * w == w * q) by (nonlinear_arith);
            assert(k * w <= n - 1);
            assert(((k - 1) as nat) * w + w == k * w) by (nonlinear_arith)
                requires
                    k >= 1,
            ;
        }
        assert(q * w == w * q) by (nonlinear_arith);
        assert(q * w + w >= n);
        assert(window_hi(q, w, n) == n);
        if n % w == 0 {
            assert(r + 1 <= w);
            if r + 1 < w {
                vstd::arithmetic::div_mod::lemma_fundamental_div_mod_converse(
                    n as int,
                    w as int,
                    q as int,
                    (r + 1) as int,
                );
                assert(false);
            }
            assert(n - q * w == w);
        } else {
            assert(r + 1 < w) by {
                if r + 1 == w {
                    assert((q + 1) * w == q * w + w) by (nonlinear_arith);
                    vstd::arithmetic::div_mod::lemma_fundamental_div_mod_converse(
                        n as int,
                        w as int,
                        (q + 1) as int,
                        0,
                    );
                }
            }
            vstd::arithmetic::div_mod::lemma_fundamental_div_mod_converse(
                n as int,
                w as int,
                q as int,
                (r + 1) as int,
            );
            assert(n % w == r + 1);
        }
        assert forall|i: nat| i < n implies window_lo(#[trigger] item_window(i, w), w) <= i
            < window_hi(item_window(i, w), w, n) && item_window(i, w) < window_count(n, w) by {
            vstd::arithmetic::div_mod::lemma_fundamental_div_mod(i as int, w as int);
            assert(i % w < w) by {
                vstd::arithmetic::div_mod::lemma_mod_bound(i as int, w as int);
            }
            assert((i / w) * w == w * (i / w)) by (nonlinear_arith);
            assert(i / w <= q) by {
                vstd::arithmetic::div_mod::lemma_div_is_ordered(
                    i as int,
                    (n - 1) as int,
                    w as int,
                );
            }
        }
        assert forall|k: nat, i: nat|
            #![trigger window_hi(k, w, n), item_window(i, w)]
            i < n && window_lo(k, w) <= i < window_hi(k, w, n) implies k == item_window(i, w) by {
            assert(k * w <= i < k * w + w);
            vstd::arithmetic::div_mod::lemma_fundamental_div_mod_converse(
                i as int,
                w as int,
                k as int,
                i - k * w,
            );
        }
    }
}

} // verus!
