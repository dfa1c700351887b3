//! Constraint-based sizing for a retained-mode widget toolkit.
//!
//! The heart of the crate is [`SizeRules`](size_rules::SizeRules): one axis's
//! sizing constraint for a widget subtree (minimum size, ideal size, edge
//! margins and a stretch policy), together with the algebra that composes
//! child constraints into a parent's and the solver that distributes a
//! container's concrete extent back over its children.

pub mod axis;
pub mod frame;
pub mod geom;
pub mod layout;
pub mod row_solver;
pub mod size_rules;
pub mod solve;
pub mod text;

pub use axis::AxisInfo;
pub use row_solver::FixedRowSolver;
pub use size_rules::SizeRules;
pub use size_rules::StretchPolicy;
