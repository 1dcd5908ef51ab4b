//! Grade- and dimension-tagged values for geometric algebra and physical
//! quantities, with the tag rules checked before values are combined.
pub mod ga_term;
pub mod grade_checking;
pub mod grade_indexed;
pub mod merge;
pub mod pattern_matching;
pub mod si_units;

pub use ga_term::{BladeTerm, GATerm, Grade, Index, Scalar};
pub use grade_indexed::{BivectorType, GradeIndexed, ScalarType, TrivectorType, VectorType};
pub use pattern_matching::{match_gaterm, visit_gaterm, GATermVisitor};
