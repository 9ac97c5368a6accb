//! The bracket scanner: sample the function across an interval at a fixed
//! resolution and report every sub-interval whose endpoint values show a
//! strict sign change.

use vstd::prelude::*;
use crate::scalar::Scalar;
use crate::tracking::{Coerceable, Derivable, Evaluable};

verus! {

/// The sampling step over `[lower, upper]` at `resolution` sub-intervals:
/// `(upper - lower) / resolution + epsilon`. The epsilon offset is
/// deliberate, so that a root landing exactly on a sampling boundary is
/// not silently missed.
pub open spec fn spec_scan_step<T: Scalar>(lower: T, upper: T, resolution: i32) -> T {
    upper.spec_minus(lower).spec_over(T::spec_of_int(resolution as int)).spec_plus(
        T::spec_epsilon(),
    )
}

/// The endpoints `(lower + step * i, lower + step * (i + 1))` of the
/// `i`-th sampling sub-interval.
pub open spec fn spec_bracket_at<T: Scalar>(lower: T, step: T, i: int) -> (T, T) {
    (
        lower.spec_plus(step.spec_times(T::spec_of_int(i))),
        lower.spec_plus(step.spec_times(T::spec_of_int(i + 1))),
    )
}

/// Whether the sampled values of `f` at the two ends of `bracket` show a
/// strict sign change: strictly positive to strictly negative, or the
/// other way round. A value that merely touches zero does not qualify.
pub open spec fn spec_sign_flip<F: Evaluable<N>, N: Derivable<T> + Coerceable<T>, T: Scalar>(
    f: F,
    bracket: (T, T),
) -> bool {
    let fa = f.spec_eval(N::spec_coerce_from(bracket.0)).spec_zeroth_derivative();
    let fb = f.spec_eval(N::spec_coerce_from(bracket.1)).spec_zeroth_derivative();
    let zero = T::spec_zero();
    (zero.spec_lt(fa) && fb.spec_lt(zero)) || (fa.spec_lt(zero) && zero.spec_lt(fb))
}

/// The brackets among the first `n` sampling sub-intervals whose endpoint
/// values show a strict sign flip, in ascending order of position.
pub open spec fn spec_brackets_upto<F: Evaluable<N>, N: Derivable<T> + Coerceable<T>, T: Scalar>(
    f: F,
    lower: T,
    step: T,
    n: int,
) -> Seq<(T, T)>
    decreases n,
{
    if n <= 0 {
        Seq::empty()
    } else {
        let prev = spec_brackets_upto::<F, N, T>(f, lower, step, n - 1);
        let bracket = spec_bracket_at::<T>(lower, step, n - 1);
        if spec_sign_flip::<F, N, T>(f, bracket) {
            prev.push(bracket)
        } else {
            prev
        }
    }
}

/// Everything the scanner returns for `f` over `[lower, upper]` at
/// `resolution` sub-intervals.
pub open spec fn spec_find_bisections<
    F: Evaluable<N>,
    N: Derivable<T> + Coerceable<T>,
    T: Scalar,
>(f: F, lower: T, upper: T, resolution: i32) -> Seq<(T, T)> {
    spec_brackets_upto::<F, N, T>(
        f,
        lower,
        spec_scan_step::<T>(lower, upper, resolution),
        resolution as int,
    )
}

/// Scans `f` over `[lower, upper]` in `resolution` equal sub-intervals
/// (offset by epsilon) and returns every sub-interval across which the
/// sampled value changes sign strictly, in ascending order.
///
/// The contract pins the result to [`spec_find_bisections`], so the
/// bracket list is a function of the inputs alone. The scan is a
/// finite-resolution heuristic: it can miss roots narrower than one
/// sampling step, and it cannot see a tangential root that touches zero
/// without crossing it.
pub fn find_bisections<F: Evaluable<N>, N: Derivable<T> + Coerceable<T> + Copy, T: Scalar>(
    f: &F,
    lower: T,
    upper: T,
    resolution: i32,
) -> (brackets: Vec<(T, T)>)
    requires
        resolution >= 1,
    ensures
        brackets@ == spec_find_bisections::<F, N, T>(*f, lower, upper, resolution),
{
    let step = upper.minus(lower).over(T::of_i32(resolution)).plus(T::epsilon());
    let mut values: Vec<(T, T)> = Vec::new();
    let mut i: i32 = 0;
    while i < resolution
        invariant
            0 <= i <= resolution,
            step == spec_scan_step::<T>(lower, upper, resolution),
            values@ == spec_brackets_upto::<F, N, T>(*f, lower, step, i as int),
        decreases resolution - i,
    {
        let a = lower.plus(step.times(T::of_i32(i)));
        let b = lower.plus(step.times(T::of_i32(i + 1)));
        let fa = f.eval(N::coerce_from(a)).zeroth_derivative();
        let fb = f.eval(N::coerce_from(b)).zeroth_derivative();
        let zero = T::zero();
        let pos2neg = zero.lt(fa) && fb.lt(zero);
        let neg2pos = fa.lt(zero) && zero.lt(fb);
        if pos2neg || neg2pos {
            values.push((a, b));
        }
        i = i + 1;
    }
    values
}

/// Everything the scanner reports flips sign: each entry of the bracket
/// list is one of the sampled sub-intervals, and the sampled values at
/// its two ends show a strict sign change.
pub proof fn lemma_brackets_sound<F: Evaluable<N>, N: Derivable<T> + Coerceable<T>, T: Scalar>(
    f: F,
    lower: T,
    step: T,
    n: int,
    j: int,
)
    requires
        0 <= j < spec_brackets_upto::<F, N, T>(f, lower, step, n).len(),
    ensures
        exists|i: int|
            0 <= i < n && spec_brackets_upto::<F, N, T>(f, lower, step, n)[j]
                == spec_bracket_at::<T>(lower, step, i) && spec_sign_flip::<F, N, T>(
                f,
                spec_bracket_at::<T>(lower, step, i),
            ),
    decreases n,
{
    if n > 0 {
        let prev = spec_brackets_upto::<F, N, T>(f, lower, step, n - 1);
        let bracket = spec_bracket_at::<T>(lower, step, n - 1);
        if spec_sign_flip::<F, N, T>(f, bracket) && j == prev.len() {
            assert(spec_brackets_upto::<F, N, T>(f, lower, step, n)[j] == bracket);
        } else {
            lemma_brackets_sound::<F, N, T>(f, lower, step, n - 1, j);
            let i = choose|i: int|
                0 <= i < n - 1 && prev[j] == spec_bracket_at::<T>(lower, step, i)
                    && spec_sign_flip::<F, N, T>(f, spec_bracket_at::<T>(lower, step, i));
            assert(spec_brackets_upto::<F, N, T>(f, lower, step, n)[j] == prev[j]);
        }
    }
}

/// The scanner misses nothing it sampled: every sampled sub-interval with
/// a strict sign flip appears in the bracket list.
pub proof fn lemma_brackets_complete<
    F: Evaluable<N>,
    N: Derivable<T> + Coerceable<T>,
    T: Scalar,
>(f: F, lower: T, step: T, n: int, i: int)
    requires
        0 <= i < n,
        spec_sign_flip::<F, N, T>(f, spec_bracket_at::<T>(lower, step, i)),
    ensures
        spec_brackets_upto::<F, N, T>(f, lower, step, n).contains(
            spec_bracket_at::<T>(lower, step, i),
        ),
    decreases n,
{
    let prev = spec_brackets_upto::<F, N, T>(f, lower, step, n - 1);
    let whole = spec_brackets_upto::<F, N, T>(f, lower, step, n);
    if i == n - 1 {
        assert(whole[whole.len() - 1] == spec_bracket_at::<T>(lower, step, i));
    } else {
        lemma_brackets_complete::<F, N, T>(f, lower, step, n - 1, i);
        let k = choose|k: int|
            0 <= k < prev.len() && prev[k] == spec_bracket_at::<T>(lower, step, i);
        assert(whole[k] == spec_bracket_at::<T>(lower, step, i));
    }
}

/// Scanning is deterministic: two scans on identical inputs yield the
/// identical bracket list, because the list is a function of the inputs
/// alone.
pub proof fn lemma_find_bisections_deterministic<
    F: Evaluable<N>,
    N: Derivable<T> + Coerceable<T>,
    T: Scalar,
>(f: F, lower: T, upper: T, resolution: i32, first: Seq<(T, T)>, second: Seq<(T, T)>)
    requires
        first == spec_find_bisections::<F, N, T>(f, lower, upper, resolution),
        second == spec_find_bisections::<F, N, T>(f, lower, upper, resolution),
    ensures
        first == second,
{
}

} // verus!
