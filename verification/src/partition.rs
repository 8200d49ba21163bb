//! Static round-robin assignment of frame indices to workers.
//!
//! Frame `k` belongs to worker `k mod C`. A worker's share is the increasing
//! run `w, w + C, w + 2C, ...` of the indices below the frame count.

use vstd::prelude::*;
use vstd::arithmetic::div_mod::lemma_fundamental_div_mod;
use vstd::arithmetic::div_mod::lemma_fundamental_div_mod_converse;

verus! {

/// The worker that renders frame `frame` when there are `workers` workers.
pub open spec fn owner_of(frame: int, workers: int) -> int
    recommends
        workers > 0,
{
    frame % workers
}

/// The `i`-th frame index of `worker`'s share.
pub open spec fn frame_at(worker: int, workers: int, i: int) -> int {
    worker + i * workers
}

/// How many of the indices `0 .. frames` fall to `worker`.
pub open spec fn share_len(worker: int, workers: int, frames: int) -> int
    recommends
        workers > 0,
{
    if worker >= frames {
        0
    } else {
        (frames - worker - 1) / workers + 1
    }
}

/// `s` is exactly the share of `worker`: the indices `worker + i * workers`
/// that lie below `frames`, in increasing order, none left out.
pub open spec fn is_share(s: Seq<usize>, worker: int, workers: int, frames: int) -> bool {
    &&& s.len() == share_len(worker, workers, frames)
    &&& forall|i: int| 0 <= i < s.len() ==> #[trigger] s[i] as int == frame_at(worker, workers, i)
}

/// `p` holds one share per worker, the share of worker `w` at position `w`.
pub open spec fn is_partition(p: Seq<Vec<usize>>, workers: int, frames: int) -> bool {
    &&& p.len() == workers
    &&& forall|w: int| 0 <= w < p.len() ==> is_share(#[trigger] p[w]@, w, workers, frames)
}

/// `q` is the quotient of `a` by `c` when `a` lies in the `q`-th block of width `c`.
proof fn lemma_block_quotient(a: int, c: int, q: int)
    requires
        c > 0,
        q * c <= a < (q + 1) * c,
    ensures
        a / c == q,
{
    assert((q + 1) * c == q * c + c) by (nonlinear_arith);
    assert(c * q == q * c) by (nonlinear_arith);
    lemma_fundamental_div_mod_converse(a, c, q, a - q * c);
}

/// Every index of a share lies below the frame count, and the index one past
/// the share does not.
pub proof fn lemma_share_bounds(worker: int, workers: int, frames: int)
    requires
        workers > 0,
        0 <= worker,
        0 <= frames,
    ensures
        share_len(worker, workers, frames) >= 0,
        forall|i: int|
            0 <= i < share_len(worker, workers, frames) ==> 0 <= #[trigger] frame_at(
                worker,
                workers,
                i,
            ) < frames,
        frame_at(worker, workers, share_len(worker, workers, frames)) >= frames,
{
    let n = share_len(worker, workers, frames);
    if worker < frames {
        let a = frames - worker - 1;
        lemma_fundamental_div_mod(a, workers);
        let q = a / workers;
        assert(0 <= a % workers < workers);
        assert(workers * q + a % workers == a);
        assert(q >= 0) by (nonlinear_arith)
            requires
                workers * q + a % workers == a,
                a >= 0,
                a % workers < workers,
                workers > 0,
        ;
        assert forall|i: int| 0 <= i < n implies 0 <= #[trigger] frame_at(worker, workers, i)
            < frames by {
            assert(i * workers <= q * workers) by (nonlinear_arith)
                requires
                    0 <= i <= q,
                    workers > 0,
            ;
            assert(0 <= i * workers) by (nonlinear_arith)
                requires
                    0 <= i,
                    workers > 0,
            ;
            assert(q * workers == workers * q) by (nonlinear_arith);
        }
        assert((q + 1) * workers == workers * q + workers) by (nonlinear_arith);
    } else {
        assert(0 * workers == 0);
    }
}

/// The worker that frame `frame` is assigned to: `frame mod workers`.
pub fn worker_for_frame(frame: usize, workers: usize) -> (w: usize)
    requires
        workers > 0,
    ensures
        w as int == owner_of(frame as int, workers as int),
        w < workers,
{
    frame % workers
}

/// The share of `worker`: every index `worker + i * workers` below
/// `frames`, in increasing order.
pub fn frames_for_worker(worker: usize, workers: usize, frames: usize) -> (out: Vec<usize>)
    requires
        workers > 0,
    ensures
        is_share(out@, worker as int, workers as int, frames as int),
{
    let mut out: Vec<usize> = Vec::new();
    if worker >= frames {
        return out;
    }
    let mut k: usize = worker;
    loop
        invariant_except_break
            workers > 0,
            worker <= k < frames,
            k as int == frame_at(worker as int, workers as int, out@.len() as int),
            forall|i: int|
                0 <= i < out@.len() ==> #[trigger] out@[i] as int == frame_at(
                    worker as int,
                    workers as int,
                    i,
                ),
        ensures
            is_share(out@, worker as int, workers as int, frames as int),
        decreases frames - k,
    {
        let ghost n = out@.len() as int;
        out.push(k);
        assert((n + 1) * workers == n * workers + workers) by (nonlinear_arith);
        if frames - k <= workers {
            proof {
                lemma_block_quotient(frames - worker - 1, workers as int, n);
            }
            break ;
        }
        k = k + workers;
    }
    out
}

/// The whole assignment: one share per worker, worker `w`'s at position `w`.
pub fn partition(workers: usize, frames: usize) -> (shares: Vec<Vec<usize>>)
    requires
        workers > 0,
    ensures
        is_partition(shares@, workers as int, frames as int),
{
    let mut shares: Vec<Vec<usize>> = Vec::new();
    let mut w: usize = 0;
    while w < workers
        invariant
            workers > 0,
            w <= workers,
            shares@.len() == w,
            forall|v: int|
                0 <= v < shares@.len() ==> is_share(
                    #[trigger] shares@[v]@,
                    v,
                    workers as int,
                    frames as int,
                ),
        decreases workers - w,
    {
        let share = frames_for_worker(w, workers, frames);
        shares.push(share);
        w = w + 1;
    }
    shares
}

/// Within a share the indices strictly increase.
pub proof fn lemma_share_strictly_increasing(s: Seq<usize>, worker: int, workers: int, frames: int)
    requires
        workers > 0,
        is_share(s, worker, workers, frames),
    ensures
        forall|i: int, j: int| 0 <= i < j < s.len() ==> s[i] < s[j],
{
    assert forall|i: int, j: int| 0 <= i < j < s.len() implies s[i] < s[j] by {
        assert(s[i] as int == frame_at(worker, workers, i));
        assert(s[j] as int == frame_at(worker, workers, j));
        assert(i * workers < j * workers) by (nonlinear_arith)
            requires
                i < j,
                workers > 0,
        ;
    }
}

/// Every index held by any share is a frame index, and it sits in the share of
/// the worker it is assigned to: no share holds a frame that is not its own.
pub proof fn lemma_partition_sound(p: Seq<Vec<usize>>, workers: int, frames: int, w: int, i: int)
    requires
        workers > 0,
        frames >= 0,
        is_partition(p, workers, frames),
        0 <= w < workers,
        0 <= i < p[w]@.len(),
    ensures
        0 <= p[w]@[i] < frames,
        owner_of(p[w]@[i] as int, workers) == w,
        p[w]@[i] as int / workers == i,
{
    let s = p[w]@;
    assert(is_share(s, w, workers, frames));
    lemma_share_bounds(w, workers, frames);
    assert(s[i] as int == frame_at(w, workers, i));
    assert(workers * i == i * workers) by (nonlinear_arith);
    lemma_fundamental_div_mod_converse(s[i] as int, workers, i, w);
}

/// Every frame index below the frame count is held exactly once: it stands in
/// the share of worker `k mod workers`, at position `k / workers`, and at no
/// other place of any share.
pub proof fn lemma_partition_exact_cover(p: Seq<Vec<usize>>, workers: int, frames: int, k: int)
    requires
        workers > 0,
        is_partition(p, workers, frames),
        0 <= k < frames,
    ensures
        0 <= owner_of(k, workers) < workers,
        0 <= k / workers < p[owner_of(k, workers)]@.len(),
        p[owner_of(k, workers)]@[k / workers] as int == k,
        forall|w: int, i: int|
            0 <= w < workers && 0 <= i < p[w]@.len() && #[trigger] p[w]@[i] as int == k ==> w
                == owner_of(k, workers) && i == k / workers,
{
    let w0 = k % workers;
    let i0 = k / workers;
    lemma_fundamental_div_mod(k, workers);
    assert(0 <= w0 < workers);
    assert(workers * i0 == i0 * workers) by (nonlinear_arith);
    assert(i0 >= 0) by (nonlinear_arith)
        requires
            workers * i0 + w0 == k,
            k >= 0,
            w0 < workers,
            workers > 0,
    ;
    let s = p[w0]@;
    assert(is_share(s, w0, workers, frames));
    lemma_share_bounds(w0, workers, frames);
    let n = share_len(w0, workers, frames);
    if i0 >= n {
        assert(n * workers <= i0 * workers) by (nonlinear_arith)
            requires
                n <= i0,
                workers > 0,
        ;
        assert(frame_at(w0, workers, n) <= k);
        assert(false);
    }
    assert(s[i0] as int == frame_at(w0, workers, i0));
    assert forall|w: int, i: int|
        0 <= w < workers && 0 <= i < p[w]@.len() && #[trigger] p[w]@[i] as int == k implies w
        == w0 && i == i0 by {
        lemma_partition_sound(p, workers, frames, w, i);
    }
}

/// The number of frame indices that the first `upto` shares of `p` hold
/// together.
pub open spec fn frames_held(p: Seq<Vec<usize>>, upto: int) -> int
    decreases upto,
{
    if upto <= 0 {
        0
    } else {
        frames_held(p, upto - 1) + p[upto - 1]@.len()
    }
}

/// The lengths of the shares of the workers below `upto`, added up.
pub open spec fn share_len_sum(workers: int, frames: int, upto: int) -> int
    decreases upto,
{
    if upto <= 0 {
        0
    } else {
        share_len_sum(workers, frames, upto - 1) + share_len(upto - 1, workers, frames)
    }
}

/// One more frame lengthens the share of the worker it is assigned to by
/// one, and no other share.
proof fn lemma_share_len_step(worker: int, workers: int, frames: int)
    requires
        workers > 0,
        0 <= worker < workers,
        frames >= 0,
    ensures
        share_len(worker, workers, frames + 1) == share_len(worker, workers, frames) + if owner_of(
            frames,
            workers,
        ) == worker {
            1int
        } else {
            0int
        },
{
    lemma_fundamental_div_mod(frames, workers);
    let q = frames / workers;
    let r = frames % workers;
    if worker > frames {
        lemma_fundamental_div_mod_converse(frames, workers, 0, frames);
    } else if worker == frames {
        lemma_fundamental_div_mod_converse(frames, workers, 0, frames);
        lemma_fundamental_div_mod_converse(0, workers, 0, 0);
    } else {
        let a = frames - worker;
        assert(q * workers == workers * q) by (nonlinear_arith);
        assert((q - 1) * workers == workers * q - workers) by (nonlinear_arith);
        if r == worker {
            lemma_fundamental_div_mod_converse(a, workers, q, 0);
            lemma_fundamental_div_mod_converse(a - 1, workers, q - 1, workers - 1);
        } else if r > worker {
            lemma_fundamental_div_mod_converse(a, workers, q, r - worker);
            lemma_fundamental_div_mod_converse(a - 1, workers, q, r - worker - 1);
        } else {
            lemma_fundamental_div_mod_converse(a, workers, q - 1, workers + r - worker);
            lemma_fundamental_div_mod_converse(a - 1, workers, q - 1, workers + r - worker - 1);
        }
    }
}

/// One more frame adds one to the summed lengths of the shares that
/// include its worker's, and nothing to the others.
proof fn lemma_share_len_sum_step(workers: int, frames: int, upto: int)
    requires
        workers > 0,
        frames >= 0,
        0 <= upto <= workers,
    ensures
        share_len_sum(workers, frames + 1, upto) == share_len_sum(workers, frames, upto)
            + if owner_of(frames, workers) < upto {
            1int
        } else {
            0int
        },
    decreases upto,
{
    lemma_fundamental_div_mod(frames, workers);
    if upto > 0 {
        lemma_share_len_sum_step(workers, frames, upto - 1);
        lemma_share_len_step(upto - 1, workers, frames);
    }
}

/// The shares of all workers together are as long as there are frames.
pub proof fn lemma_share_lens_add_up(workers: int, frames: int)
    requires
        workers > 0,
        frames >= 0,
    ensures
        share_len_sum(workers, frames, workers) == frames,
    decreases frames,
{
    if frames == 0 {
        lemma_no_frames_no_shares(workers, workers);
    } else {
        lemma_share_lens_add_up(workers, frames - 1);
        lemma_share_len_sum_step(workers, frames - 1, workers);
        lemma_fundamental_div_mod(frames - 1, workers);
    }
}

/// Without frames every share is empty.
proof fn lemma_no_frames_no_shares(workers: int, upto: int)
    requires
        workers > 0,
        0 <= upto,
    ensures
        share_len_sum(workers, 0, upto) == 0,
    decreases upto,
{
    if upto > 0 {
        lemma_no_frames_no_shares(workers, upto - 1);
    }
}

/// The first `upto` shares of a partition hold as many indices as their
/// lengths say.
proof fn lemma_frames_held_is_sum(p: Seq<Vec<usize>>, workers: int, frames: int, upto: int)
    requires
        is_partition(p, workers, frames),
        0 <= upto <= workers,
    ensures
        frames_held(p, upto) == share_len_sum(workers, frames, upto),
    decreases upto,
{
    if upto > 0 {
        lemma_frames_held_is_sum(p, workers, frames, upto - 1);
        assert(is_share(p[upto - 1]@, upto - 1, workers, frames));
    }
}

/// A partition holds exactly as many frame indices as there are frames: the
/// workers send as many completion signals as the run has frames.
pub proof fn lemma_partition_holds_every_frame(p: Seq<Vec<usize>>, workers: int, frames: int)
    requires
        workers > 0,
        frames >= 0,
        is_partition(p, workers, frames),
    ensures
        frames_held(p, workers) == frames,
{
    lemma_frames_held_is_sum(p, workers, frames, workers);
    lemma_share_lens_add_up(workers, frames);
}

} // verus!
