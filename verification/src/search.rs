//! The root-search orchestrator: validate the configuration, scan for
//! brackets, then refine seeds inside each bracket until one confirmed
//! root per bracket is found.

use vstd::prelude::*;
use crate::newton::{newton, spec_newton};
use crate::scalar::Scalar;
use crate::scan::{find_bisections, spec_find_bisections};
use crate::tracking::{Coerceable, Derivable, Evaluable};

verus! {

/// The number of evenly spaced seed guesses tried inside each bracket.
pub const SEEDS_PER_BRACKET: i32 = 100;

/// Why a search configuration was rejected before any scanning or
/// refinement was attempted.
#[derive(Clone, Copy, Debug, PartialEq, Eq, Structural)]
pub enum ConfigError {
    /// The lower bound exceeds the upper bound.
    InvertedBounds,
    /// The two bounds coincide, so the interval is empty.
    DegenerateBounds,
}

/// `root` lies strictly inside the open interval of `bracket`: strictly
/// above the lower endpoint and strictly below the upper one.
pub open spec fn spec_strictly_inside<T: Scalar>(root: T, bracket: (T, T)) -> bool {
    bracket.0.spec_lt(root) && root.spec_lt(bracket.1)
}

/// The root accepted from the bracket `(a, b)` when seeds are tried from
/// position `i` onward: the seeds are `a + i * ((b - a) / 100)` for `i`
/// up to 100, each refined by the Newton iteration, and the first refined
/// root lying strictly inside the open interval is accepted. A seed whose
/// refinement fails ends the whole bracket: no later seed is tried.
pub open spec fn spec_bracket_root<F: Evaluable<N>, N: Derivable<T> + Coerceable<T>, T: Scalar>(
    f: F,
    a: T,
    b: T,
    patience: i32,
    tolerance: T,
    i: int,
) -> Option<T>
    decreases SEEDS_PER_BRACKET - i,
{
    if i >= SEEDS_PER_BRACKET {
        None
    } else {
        let step = b.spec_minus(a).spec_over(T::spec_of_int(SEEDS_PER_BRACKET as int));
        let guess = a.spec_plus(T::spec_of_int(i).spec_times(step));
        match spec_newton::<F, N, T>(f, guess, tolerance, patience as nat) {
            Option::None => None,
            Option::Some(root) => if spec_strictly_inside::<T>(root, (a, b)) {
                Some(root)
            } else {
                spec_bracket_root::<F, N, T>(f, a, b, patience, tolerance, i + 1)
            },
        }
    }
}

/// The roots accepted from the first `n` brackets, in bracket order: at
/// most one root per bracket, and nothing from a bracket whose seeds were
/// exhausted or whose refinement failed.
pub open spec fn spec_roots_upto<F: Evaluable<N>, N: Derivable<T> + Coerceable<T>, T: Scalar>(
    f: F,
    brackets: Seq<(T, T)>,
    patience: i32,
    tolerance: T,
    n: int,
) -> Seq<T>
    decreases n,
{
    if n <= 0 {
        Seq::empty()
    } else {
        let prev = spec_roots_upto::<F, N, T>(f, brackets, patience, tolerance, n - 1);
        match spec_bracket_root::<F, N, T>(
            f,
            brackets[n - 1].0,
            brackets[n - 1].1,
            patience,
            tolerance,
            0,
        ) {
            Option::Some(root) => prev.push(root),
            Option::None => prev,
        }
    }
}

/// The full outcome of a root search: a rejected configuration when the
/// bounds are inverted or degenerate, otherwise the accepted roots
/// together with the complete bracket list.
pub open spec fn spec_root_search<F: Evaluable<N>, N: Derivable<T> + Coerceable<T>, T: Scalar>(
    f: F,
    lower: T,
    upper: T,
    resolution: i32,
    patience: i32,
    tolerance: T,
) -> Result<(Seq<T>, Seq<(T, T)>), ConfigError> {
    if upper.spec_lt(lower) {
        Result::Err(ConfigError::InvertedBounds)
    } else if lower.spec_eq(upper) {
        Result::Err(ConfigError::DegenerateBounds)
    } else {
        let brackets = spec_find_bisections::<F, N, T>(f, lower, upper, resolution);
        Result::Ok(
            (
                spec_roots_upto::<F, N, T>(f, brackets, patience, tolerance, brackets.len() as int),
                brackets,
            ),
        )
    }
}

/// Tries up to 100 evenly spaced seeds across `[a, b)` in ascending
/// order, refining each with the Newton iteration, and returns the first
/// refined root that lies strictly inside the open interval `(a, b)`.
/// The first seed whose refinement fails ends the bracket: `None` is
/// returned and no later seed is tried.
fn bracket_root<F: Evaluable<N>, N: Derivable<T> + Coerceable<T> + Copy, T: Scalar>(
    f: &F,
    a: T,
    b: T,
    patience: i32,
    tolerance: T,
) -> (r: Option<T>)
    requires
        0 < patience < i32::MAX,
    ensures
        r == spec_bracket_root::<F, N, T>(*f, a, b, patience, tolerance, 0),
{
    let step = b.minus(a).over(T::of_i32(SEEDS_PER_BRACKET));
    let mut i: i32 = 0;
    while i < SEEDS_PER_BRACKET
        invariant
            0 <= i <= SEEDS_PER_BRACKET,
            0 < patience < i32::MAX,
            step == b.spec_minus(a).spec_over(T::spec_of_int(SEEDS_PER_BRACKET as int)),
            spec_bracket_root::<F, N, T>(*f, a, b, patience, tolerance, 0)
                == spec_bracket_root::<F, N, T>(*f, a, b, patience, tolerance, i as int),
        decreases SEEDS_PER_BRACKET - i,
    {
        let guess = a.plus(T::of_i32(i).times(step));
        match newton::<F, N, T>(f, guess, patience, tolerance) {
            Option::None => {
                return None;
            },
            Option::Some(root) => {
                if a.lt(root) && root.lt(b) {
                    return Some(root);
                }
            },
        }
        i = i + 1;
    }
    None
}

/// Searches `f` for roots over `[lower, upper]`: rejects an inverted or
/// degenerate configuration outright, otherwise scans at `resolution` for
/// sign-change brackets and refines seeds inside each bracket, accepting
/// at most one root per bracket — only a root lying strictly inside its
/// originating bracket's open interval. Returns the accepted roots in
/// bracket order together with the full bracket list, so a caller can see
/// which regions were scanned even where no root was confirmed.
///
/// The contract pins the result to [`spec_root_search`]: exactly which
/// error comes on which bounds, and on success exactly which roots and
/// brackets are returned, as a function of the inputs alone.
pub fn root_search<F: Evaluable<N>, N: Derivable<T> + Coerceable<T> + Copy, T: Scalar>(
    f: &F,
    lower: T,
    upper: T,
    resolution: i32,
    patience: i32,
    tolerance: T,
) -> (r: Result<(Vec<T>, Vec<(T, T)>), ConfigError>)
    requires
        resolution >= 1,
        0 < patience < i32::MAX,
    ensures
        (match (r, spec_root_search::<F, N, T>(*f, lower, upper, resolution, patience, tolerance)) {
            (Result::Ok((roots, brackets)), Result::Ok(s)) => roots@ == s.0 && brackets@ == s.1,
            (Result::Err(e), Result::Err(s)) => e == s,
            _ => false,
        }),
{
    if upper.lt(lower) {
        return Result::Err(ConfigError::InvertedBounds);
    }
    if lower.eq_val(upper) {
        return Result::Err(ConfigError::DegenerateBounds);
    }
    let brackets = find_bisections::<F, N, T>(f, lower, upper, resolution);
    let mut roots: Vec<T> = Vec::new();
    let mut k: usize = 0;
    while k < brackets.len()
        invariant
            0 <= k <= brackets@.len(),
            0 < patience < i32::MAX,
            brackets@ == spec_find_bisections::<F, N, T>(*f, lower, upper, resolution),
            roots@ == spec_roots_upto::<F, N, T>(*f, brackets@, patience, tolerance, k as int),
        decreases brackets@.len() - k,
    {
        let a = brackets[k].0;
        let b = brackets[k].1;
        match bracket_root::<F, N, T>(f, a, b, patience, tolerance) {
            Option::Some(root) => {
                roots.push(root);
            },
            Option::None => {},
        }
        k = k + 1;
    }
    Result::Ok((roots, brackets))
}

/// A root accepted from a bracket lies strictly inside it: whichever seed
/// the acceptance came from, the accepted value passed the strict
/// open-interval test.
pub proof fn lemma_bracket_root_inside<
    F: Evaluable<N>,
    N: Derivable<T> + Coerceable<T>,
    T: Scalar,
>(f: F, a: T, b: T, patience: i32, tolerance: T, i: int, root: T)
    requires
        spec_bracket_root::<F, N, T>(f, a, b, patience, tolerance, i) == Some(root),
    ensures
        spec_strictly_inside::<T>(root, (a, b)),
    decreases SEEDS_PER_BRACKET - i,
{
    if i < SEEDS_PER_BRACKET {
        let step = b.spec_minus(a).spec_over(T::spec_of_int(SEEDS_PER_BRACKET as int));
        let guess = a.spec_plus(T::spec_of_int(i).spec_times(step));
        match spec_newton::<F, N, T>(f, guess, tolerance, patience as nat) {
            Option::None => {},
            Option::Some(candidate) => {
                if !spec_strictly_inside::<T>(candidate, (a, b)) {
                    lemma_bracket_root_inside::<F, N, T>(f, a, b, patience, tolerance, i + 1, root);
                }
            },
        }
    }
}

/// Every root in the accepted list lies strictly inside one of the first
/// `n` brackets it was collected from.
pub proof fn lemma_roots_upto_inside<
    F: Evaluable<N>,
    N: Derivable<T> + Coerceable<T>,
    T: Scalar,
>(f: F, brackets: Seq<(T, T)>, patience: i32, tolerance: T, n: int, j: int)
    requires
        n <= brackets.len(),
        0 <= j < spec_roots_upto::<F, N, T>(f, brackets, patience, tolerance, n).len(),
    ensures
        exists|k: int|
            0 <= k < n && spec_strictly_inside::<T>(
                spec_roots_upto::<F, N, T>(f, brackets, patience, tolerance, n)[j],
                brackets[k],
            ),
    decreases n,
{
    if n > 0 {
        let prev = spec_roots_upto::<F, N, T>(f, brackets, patience, tolerance, n - 1);
        let whole = spec_roots_upto::<F, N, T>(f, brackets, patience, tolerance, n);
        match spec_bracket_root::<F, N, T>(
            f,
            brackets[n - 1].0,
            brackets[n - 1].1,
            patience,
            tolerance,
            0,
        ) {
            Option::Some(root) => {
                if j == prev.len() {
                    lemma_bracket_root_inside::<F, N, T>(
                        f,
                        brackets[n - 1].0,
                        brackets[n - 1].1,
                        patience,
                        tolerance,
                        0,
                        root,
                    );
                    assert(spec_strictly_inside::<T>(whole[j], brackets[n - 1]));
                } else {
                    lemma_roots_upto_inside::<F, N, T>(f, brackets, patience, tolerance, n - 1, j);
                    let k = choose|k: int|
                        0 <= k < n - 1 && spec_strictly_inside::<T>(prev[j], brackets[k]);
                    assert(spec_strictly_inside::<T>(whole[j], brackets[k]));
                }
            },
            Option::None => {
                lemma_roots_upto_inside::<F, N, T>(f, brackets, patience, tolerance, n - 1, j);
                let k = choose|k: int|
                    0 <= k < n - 1 && spec_strictly_inside::<T>(prev[j], brackets[k]);
                assert(spec_strictly_inside::<T>(whole[j], brackets[k]));
            },
        }
    }
}

/// Every root that a successful search returns lies strictly inside one
/// of the brackets returned with it: no root equals or exceeds either
/// endpoint of the bracket containing it.
pub proof fn lemma_roots_inside_brackets<
    F: Evaluable<N>,
    N: Derivable<T> + Coerceable<T>,
    T: Scalar,
>(
    f: F,
    lower: T,
    upper: T,
    resolution: i32,
    patience: i32,
    tolerance: T,
    roots: Seq<T>,
    brackets: Seq<(T, T)>,
    j: int,
)
    requires
        spec_root_search::<F, N, T>(f, lower, upper, resolution, patience, tolerance)
            == Result::<(Seq<T>, Seq<(T, T)>), ConfigError>::Ok((roots, brackets)),
        0 <= j < roots.len(),
    ensures
        exists|k: int|
            0 <= k < brackets.len() && spec_strictly_inside::<T>(roots[j], brackets[k]),
{
    lemma_roots_upto_inside::<F, N, T>(
        f,
        brackets,
        patience,
        tolerance,
        brackets.len() as int,
        j,
    );
}

/// An inverted or degenerate configuration is rejected outright, with the
/// error naming which of the two faults was found — inverted bounds are
/// reported first — and no other configuration is rejected.
pub proof fn lemma_invalid_bounds_rejected<
    F: Evaluable<N>,
    N: Derivable<T> + Coerceable<T>,
    T: Scalar,
>(f: F, lower: T, upper: T, resolution: i32, patience: i32, tolerance: T)
    ensures
        upper.spec_lt(lower) ==> spec_root_search::<F, N, T>(
            f,
            lower,
            upper,
            resolution,
            patience,
            tolerance,
        ) == Result::<(Seq<T>, Seq<(T, T)>), ConfigError>::Err(ConfigError::InvertedBounds),
        !upper.spec_lt(lower) && lower.spec_eq(upper) ==> spec_root_search::<F, N, T>(
            f,
            lower,
            upper,
            resolution,
            patience,
            tolerance,
        ) == Result::<(Seq<T>, Seq<(T, T)>), ConfigError>::Err(ConfigError::DegenerateBounds),
        !upper.spec_lt(lower) && !lower.spec_eq(upper) ==> spec_root_search::<F, N, T>(
            f,
            lower,
            upper,
            resolution,
            patience,
            tolerance,
        ) is Ok,
{
}

/// Searching is deterministic: two searches on identical inputs yield the
/// identical outcome, because the outcome is a function of the inputs
/// alone.
pub proof fn lemma_root_search_deterministic<
    F: Evaluable<N>,
    N: Derivable<T> + Coerceable<T>,
    T: Scalar,
>(
    f: F,
    lower: T,
    upper: T,
    resolution: i32,
    patience: i32,
    tolerance: T,
    first: Result<(Seq<T>, Seq<(T, T)>), ConfigError>,
    second: Result<(Seq<T>, Seq<(T, T)>), ConfigError>,
)
    requires
        first == spec_root_search::<F, N, T>(f, lower, upper, resolution, patience, tolerance),
        second == spec_root_search::<F, N, T>(f, lower, upper, resolution, patience, tolerance),
    ensures
        first == second,
{
}

} // verus!

