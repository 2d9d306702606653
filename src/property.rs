//! Properties: composable assertions with structured diagnostics.
pub mod api;
pub mod collection;
pub mod comparison;

pub use api::{both, either, And, BoxProperty, Caught, Or, Outcome, Property};
pub use collection::Collection;
pub use comparison::{
    equal, greater, greater_equal, less, less_equal, not_equal, EqOp, OrdOp, RelationEq,
    RelationOrd,
};
