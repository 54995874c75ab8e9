use vstd::prelude::*;

use vstd::arithmetic::div_mod::lemma_fundamental_div_mod;
use vstd::arithmetic::div_mod::lemma_mod_bound;

verus! {

/// How many frames go into one output frame, and how many indices apart
/// the combined frames sit.
#[derive(Clone, Copy, Debug, PartialEq, Eq, Structural)]
pub struct WindowSpec {
    pub frames_to_combine: usize,
    pub frame_spacing: usize,
}

/// How many of the candidates `target - k * spacing`, `k` in `0..count`,
/// stay at or above frame 0. With `spacing == 0` every candidate does;
/// otherwise exactly those with `k <= target / spacing`.
pub open spec fn window_len(target: int, count: int, spacing: int) -> int
    recommends
        target >= 0,
        count >= 0,
        spacing >= 0,
{
    if spacing == 0 {
        count
    } else if target / spacing + 1 <= count {
        target / spacing + 1
    } else {
        count
    }
}

/// The ordered window for one output frame: entry `k` is the source index
/// `target - k * spacing`, most recent frame first, with the candidates
/// that would fall below frame 0 dropped. Candidates are not
/// deduplicated: with `spacing == 0` the window is `target` repeated
/// `count` times, exactly as many entries as were asked for.
pub open spec fn window_seq(target: int, count: int, spacing: int) -> Seq<int>
    recommends
        target >= 0,
        count >= 0,
        spacing >= 0,
{
    Seq::new(window_len(target, count, spacing) as nat, |k: int| target - k * spacing)
}

/// With `spacing >= 1`, a candidate stays at or above frame 0 exactly
/// when its step number is at most `target / spacing`.
proof fn lemma_window_boundary(target: int, spacing: int, k: int)
    requires
        target >= 0,
        spacing >= 1,
        k >= 0,
    ensures
        k * spacing <= target <==> k <= target / spacing,
{
    let q = target / spacing;
    let r = target % spacing;
    lemma_fundamental_div_mod(target, spacing);
    lemma_mod_bound(target, spacing);
    assert(spacing * q + r == target);
    if k <= q {
        assert(k * spacing <= q * spacing) by (nonlinear_arith)
            requires
                k <= q,
                spacing >= 1,
        ;
        assert(q * spacing == spacing * q) by (nonlinear_arith);
    }
    if k * spacing <= target {
        assert(k <= q) by (nonlinear_arith)
            requires
                k * spacing <= spacing * q + r,
                0 <= r < spacing,
                spacing >= 1,
                k >= 0,
                q >= 0,
        ;
    }
    assert(q >= 0) by (nonlinear_arith)
        requires
            spacing * q + r == target,
            target >= 0,
            0 <= r < spacing,
            spacing >= 1,
    ;
}

/// Every index the window selects is a real frame index: at least 0 and
/// no later than the target frame itself.
pub proof fn lemma_window_in_range(target: int, count: int, spacing: int, k: int)
    requires
        target >= 0,
        count >= 0,
        spacing >= 0,
        0 <= k < window_seq(target, count, spacing).len(),
    ensures
        0 <= window_seq(target, count, spacing)[k] <= target,
{
    if spacing == 0 {
        assert(k * 0 == 0) by (nonlinear_arith);
    } else {
        assert(k <= target / spacing);
        lemma_window_boundary(target, spacing, k);
        assert(k * spacing >= 0) by (nonlinear_arith)
            requires
                k >= 0,
                spacing >= 0,
        ;
    }
}

/// With `spacing == 0` every candidate collapses onto the target frame:
/// the window is the target index repeated `count` times.
pub proof fn lemma_spacing_zero_collapses(target: int, count: int)
    requires
        target >= 0,
        count >= 0,
    ensures
        window_seq(target, count, 0).len() == count,
        forall|k: int| 0 <= k < count ==> window_seq(target, count, 0)[k] == target,
{
    assert forall|k: int| 0 <= k < count implies window_seq(target, count, 0)[k] == target by {
        assert(k * 0 == 0) by (nonlinear_arith);
    }
}

/// For the very first frame only the step `k == 0` stays at or above
/// frame 0, however many frames were asked for: its window is `[0]`
/// (or empty, when no frames are to be combined at all).
pub proof fn lemma_target_zero_single(count: int, spacing: int)
    requires
        count >= 0,
        spacing >= 1,
    ensures
        count == 0 ==> window_seq(0, count, spacing) == Seq::<int>::empty(),
        count >= 1 ==> window_seq(0, count, spacing) == seq![0int],
{
    assert(0int / spacing == 0) by (nonlinear_arith)
        requires
            spacing >= 1,
    ;
    if count == 0 {
        assert(window_seq(0, count, spacing) =~= Seq::<int>::empty());
    } else {
        assert(window_len(0, count, spacing) == 1);
        assert(window_seq(0, count, spacing) =~= seq![0int]);
    }
}

/// Asking for zero frames yields the empty window.
pub proof fn lemma_empty_window(target: int, spacing: int)
    requires
        target >= 0,
        spacing >= 0,
    ensures
        window_seq(target, 0, spacing) == Seq::<int>::empty(),
{
    assert(window_seq(target, 0, spacing) =~= Seq::<int>::empty());
}

/// Selects the ordered source indices to combine for the given target
/// frame: `target_index - k * frame_spacing` for each step `k` in
/// `0..frames_to_combine`, silently dropping the candidates that would
/// fall below frame 0.
pub fn select_window(target_index: usize, window: &WindowSpec) -> (r: Vec<usize>)
    ensures
        r@.len() == window_len(
            target_index as int,
            window.frames_to_combine as int,
            window.frame_spacing as int,
        ),
        forall|k: int|
            0 <= k < r@.len() ==> r@[k] as int == window_seq(
                target_index as int,
                window.frames_to_combine as int,
                window.frame_spacing as int,
            )[k],
{
    let count = window.frames_to_combine;
    let spacing = window.frame_spacing;
    let mut r: Vec<usize> = Vec::new();

    if count == 0 {
        return r;
    }
    if spacing == 0 {
        let mut j: usize = 0;
        while j < count
            invariant
                j <= count,
                r@.len() == j,
                forall|k: int| 0 <= k < j ==> r@[k] == target_index,
            decreases count - j,
        {
            r.push(target_index);
            j = j + 1;
        }
        proof {
            lemma_spacing_zero_collapses(target_index as int, count as int);
        }
        return r;
    }

    let ghost t = target_index as int;
    let ghost q = t / (spacing as int);
    let mut current = target_index;
    r.push(current);
    let mut j: usize = 1;
    while j < count && spacing <= current
        invariant
            spacing >= 1,
            1 <= j <= count,
            current as int == t - (j - 1) * spacing,
            j - 1 <= q,
            t >= 0,
            q == t / (spacing as int),
            r@.len() == j,
            forall|k: int| 0 <= k < j ==> r@[k] as int == t - k * spacing,
        decreases count - j,
    {
        proof {
            assert((j as int) * spacing == (j - 1) * spacing + spacing) by (nonlinear_arith);
            assert((j as int) * spacing <= t);
            lemma_window_boundary(t, spacing as int, j as int);
        }
        current = current - spacing;
        r.push(current);
        j = j + 1;
    }
    proof {
        if j == count {
            // every requested step was valid, so the window is full
            lemma_window_boundary(t, spacing as int, count - 1);
        } else {
            // the next candidate would underflow: exactly j entries are valid
            assert(current < spacing);
            assert((j as int) * spacing == (j - 1) * spacing + spacing) by (nonlinear_arith);
            assert((j as int) * spacing > t);
            lemma_window_boundary(t, spacing as int, j as int);
            assert(q < j);
            assert(window_len(t, count as int, spacing as int) == j);
        }
    }
    r
}

} // verus!
