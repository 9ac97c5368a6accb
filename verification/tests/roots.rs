use num_dual::{Dual2_32, DualNum};
use root_finder::{
    find_bisections, newton, root_search, Coerceable, ConfigError, Derivable, Evaluable, Scalar,
};

/// A plain `f32` scalar for the pipeline.
#[derive(Clone, Copy, Debug, PartialEq)]
struct Real32(f32);

impl Scalar for Real32 {
    fn plus(self, other: Self) -> Self {
        Real32(self.0 + other.0)
    }
    fn minus(self, other: Self) -> Self {
        Real32(self.0 - other.0)
    }
    fn times(self, other: Self) -> Self {
        Real32(self.0 * other.0)
    }
    fn over(self, other: Self) -> Self {
        Real32(self.0 / other.0)
    }
    fn abs_val(self) -> Self {
        Real32(self.0.abs())
    }
    fn lt(self, other: Self) -> bool {
        self.0 < other.0
    }
    fn eq_val(self, other: Self) -> bool {
        self.0 == other.0
    }
    fn zero() -> Self {
        Real32(0.0)
    }
    fn epsilon() -> Self {
        Real32(f32::EPSILON)
    }
    fn of_i32(v: i32) -> Self {
        Real32(v as f32)
    }
}

/// An `f32` lifted into second-order forward-mode tracking.
#[derive(Clone, Copy, Debug)]
struct Diff32(Dual2_32);

impl Derivable<Real32> for Diff32 {
    fn execute_derivative(&self) -> Self {
        Diff32(self.0.derivative())
    }
    fn zeroth_derivative(&self) -> Real32 {
        Real32(self.0.re)
    }
    fn first_derivative(&self) -> Real32 {
        Real32(self.0.v1)
    }
    fn second_derivative(&self) -> Real32 {
        Real32(self.0.v2)
    }
}

impl Coerceable<Real32> for Diff32 {
    fn coerce_to(&self) -> Real32 {
        Real32(self.0.re)
    }
    fn coerce_from(value: Real32) -> Self {
        Diff32(Dual2_32::from_re(value.0))
    }
}

struct Sine;

impl Evaluable<Diff32> for Sine {
    fn eval(&self, x: Diff32) -> Diff32 {
        Diff32(x.0.sin())
    }
}

struct Cosine;

impl Evaluable<Diff32> for Cosine {
    fn eval(&self, x: Diff32) -> Diff32 {
        Diff32(x.0.cos())
    }
}

/// The identity function: its only root is zero.
struct Linear;

impl Evaluable<Diff32> for Linear {
    fn eval(&self, x: Diff32) -> Diff32 {
        x
    }
}

/// `x * x + 1`: everywhere positive, so Newton can never converge to a
/// root.
struct NoRoot;

impl Evaluable<Diff32> for NoRoot {
    fn eval(&self, x: Diff32) -> Diff32 {
        Diff32(x.0 * x.0 + Dual2_32::from_re(1.0))
    }
}

#[test]
fn find_sine_root_newton() {
    let root = newton::<Sine, Diff32, Real32>(&Sine, Real32(2.0), 1000, Real32(0.0001));
    assert_eq!(std::f32::consts::PI, root.unwrap().0)
}

#[test]
fn find_cosine_root_newton() {
    let root = newton::<Cosine, Diff32, Real32>(&Cosine, Real32(2.0), 1000, Real32(0.0001));
    assert_eq!(std::f32::consts::PI / 2.0, root.unwrap().0)
}

#[test]
fn find_sine_bisections() {
    let bisections =
        find_bisections::<Sine, Diff32, Real32>(&Sine, Real32(-5.0), Real32(5.0), 2000);
    for bisection in &bisections {
        println!("bisection: ({},{})", bisection.0 .0, bisection.1 .0)
    }
    assert_eq!(bisections.len(), 3)
}

#[test]
fn find_cosine_bisections() {
    let bisections =
        find_bisections::<Cosine, Diff32, Real32>(&Cosine, Real32(-5.0), Real32(5.0), 2000);
    for bisection in &bisections {
        println!("bisection: ({},{})", bisection.0 .0, bisection.1 .0)
    }
    assert_eq!(bisections.len(), 4)
}

#[test]
fn find_sine_roots() {
    let roots = root_search::<Sine, Diff32, Real32>(
        &Sine,
        Real32(-5.0),
        Real32(5.0),
        2000,
        1000,
        Real32(0.0001),
    )
    .unwrap();
    for root in &roots.0 {
        println!("root: {}", root.0);
    }
    assert_eq!(roots.0.len(), 3);
    assert!(roots.0.contains(&Real32(std::f32::consts::PI)));
    assert!(roots.0.contains(&Real32(-std::f32::consts::PI)));
    assert!(roots.0.contains(&Real32(0.0)));
}

#[test]
fn find_cosine_roots() {
    let roots = root_search::<Cosine, Diff32, Real32>(
        &Cosine,
        Real32(-5.0),
        Real32(5.0),
        2000,
        1000,
        Real32(0.0001),
    )
    .unwrap();
    for root in &roots.0 {
        println!("root: {}", root.0);
    }
    assert_eq!(roots.0.len(), 4);
    assert!(roots.0.contains(&Real32(std::f32::consts::FRAC_PI_2)));
    assert!(roots.0.contains(&Real32(-std::f32::consts::FRAC_PI_2)));
    assert!(roots.0.contains(&Real32(std::f32::consts::FRAC_PI_2 * 3.0)));
    assert!(roots.0.contains(&Real32(-std::f32::consts::FRAC_PI_2 * 3.0)));
}

#[test]
fn inverted_bounds_rejected() {
    let outcome = root_search::<Sine, Diff32, Real32>(
        &Sine,
        Real32(2.0),
        Real32(1.0),
        2000,
        1000,
        Real32(0.0001),
    );
    assert_eq!(outcome.unwrap_err(), ConfigError::InvertedBounds);
}

#[test]
fn degenerate_bounds_rejected() {
    let outcome = root_search::<Sine, Diff32, Real32>(
        &Sine,
        Real32(1.0),
        Real32(1.0),
        2000,
        1000,
        Real32(0.0001),
    );
    assert_eq!(outcome.unwrap_err(), ConfigError::DegenerateBounds);
}

#[test]
fn newton_fails_without_root() {
    let root = newton::<NoRoot, Diff32, Real32>(&NoRoot, Real32(2.0), 1000, Real32(0.0001));
    assert_eq!(root, None);
}

#[test]
fn scanner_step_formula_exact() {
    // The scanner samples f(x) = x over [-1, 1] in 4 sub-intervals of
    // width (1 - (-1)) / 4 + epsilon; only the sub-interval whose ends
    // straddle zero is reported, with exactly these endpoints.
    let bisections =
        find_bisections::<Linear, Diff32, Real32>(&Linear, Real32(-1.0), Real32(1.0), 4);
    let step = (1.0f32 - (-1.0f32)) / 4.0 + f32::EPSILON;
    let a = -1.0f32 + step * 1.0;
    let b = -1.0f32 + step * 2.0;
    assert_eq!(bisections, vec![(Real32(a), Real32(b))]);
}

#[test]
fn linear_root_is_exact_zero() {
    // On f(x) = x Newton lands on 0.0 in one step from any seed, so the
    // search returns exactly the root zero from its single bracket.
    let outcome = root_search::<Linear, Diff32, Real32>(
        &Linear,
        Real32(-1.0),
        Real32(1.0),
        4,
        1000,
        Real32(0.0001),
    );
    let (roots, bisections) = outcome.unwrap();
    assert_eq!(bisections.len(), 1);
    assert_eq!(roots, vec![Real32(0.0)]);
}

#[test]
fn repeated_searches_bit_identical() {
    let first = root_search::<Cosine, Diff32, Real32>(
        &Cosine,
        Real32(-5.0),
        Real32(5.0),
        2000,
        1000,
        Real32(0.0001),
    );
    let second = root_search::<Cosine, Diff32, Real32>(
        &Cosine,
        Real32(-5.0),
        Real32(5.0),
        2000,
        1000,
        Real32(0.0001),
    );
    assert_eq!(first, second);
    let first_newton = newton::<Sine, Diff32, Real32>(&Sine, Real32(2.0), 1000, Real32(0.0001));
    let second_newton = newton::<Sine, Diff32, Real32>(&Sine, Real32(2.0), 1000, Real32(0.0001));
    assert_eq!(first_newton, second_newton);
    let first_scan = find_bisections::<Sine, Diff32, Real32>(&Sine, Real32(-5.0), Real32(5.0), 2000);
    let second_scan =
        find_bisections::<Sine, Diff32, Real32>(&Sine, Real32(-5.0), Real32(5.0), 2000);
    assert_eq!(first_scan, second_scan);
}

#[test]
fn roots_lie_strictly_inside_brackets() {
    let (roots, bisections) = root_search::<Sine, Diff32, Real32>(
        &Sine,
        Real32(-5.0),
        Real32(5.0),
        2000,
        1000,
        Real32(0.0001),
    )
    .unwrap();
    assert!(!roots.is_empty());
    for root in &roots {
        assert!(bisections
            .iter()
            .any(|bisection| bisection.0 .0 < root.0 && root.0 < bisection.1 .0));
    }
}
