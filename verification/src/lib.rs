//! Root finding for smooth scalar functions: a sign-change scanner over a
//! bounded interval, a Newton-Raphson refiner driven by forward-mode
//! automatic differentiation, and an orchestrator that combines the two
//! into a set of confirmed roots.
//!
//! The whole pipeline is generic over an abstract scalar algebra
//! ([`Scalar`]) and over derivative-tracking values ([`Derivable`],
//! [`Coerceable`]); every operation an implementor supplies is pinned to a
//! spec-level counterpart, so each public operation's contract states its
//! result exactly as a mathematical function of its inputs.

mod newton;
mod scalar;
mod scan;
mod search;
mod tracking;

pub use newton::lemma_newton_deterministic;
pub use newton::newton;
pub use newton::spec_newton;
pub use newton::spec_newton_step;
pub use scalar::Scalar;
pub use scan::find_bisections;
pub use scan::lemma_brackets_complete;
pub use scan::lemma_brackets_sound;
pub use scan::lemma_find_bisections_deterministic;
pub use scan::spec_bracket_at;
pub use scan::spec_brackets_upto;
pub use scan::spec_find_bisections;
pub use scan::spec_scan_step;
pub use scan::spec_sign_flip;
pub use search::lemma_bracket_root_inside;
pub use search::lemma_invalid_bounds_rejected;
pub use search::lemma_root_search_deterministic;
pub use search::lemma_roots_inside_brackets;
pub use search::lemma_roots_upto_inside;
pub use search::root_search;
pub use search::spec_bracket_root;
pub use search::spec_root_search;
pub use search::spec_roots_upto;
pub use search::spec_strictly_inside;
pub use search::ConfigError;
pub use search::SEEDS_PER_BRACKET;
pub use tracking::Coerceable;
pub use tracking::Derivable;
pub use tracking::Evaluable;
