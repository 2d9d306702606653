//! A property-based testing engine.
//!
//! Generators describe how to draw typed values from a splittable
//! pseudo-random source; properties are composable assertions with
//! structured diagnostics; the harness binds the two and tallies results.
pub mod rand;
pub mod seed;
pub mod generator;
pub mod ux;
pub mod property;
pub mod run;

pub use generator::Generator;
pub use property::Property;
pub use rand::{NumPrimitive, R};
pub use run::{for_all, Context, Ensure, Testable};
pub use seed::Seed;
