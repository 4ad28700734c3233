//! Hierarchical (binary-tree) folding of finite-field values.
//!
//! A sequence of `2^k` base-field values is reduced to a single
//! extension-field value by `k` rounds of halving: at each level the two
//! recursively folded halves `l` and `r` are combined as `l + r * factor`,
//! where `factor` is that level's folding factor. The first factor in the
//! list belongs to the outermost level, the last to the innermost one.

pub mod cm31;
pub mod field;
pub mod folding;
pub mod m31;
pub mod qm31;

pub use cm31::CM31;
pub use field::ExtensionOf;
pub use field::Field;
pub use folding::fold;
pub use folding::fold_gpu;
pub use folding::try_fold;
pub use m31::M31;
pub use m31::P;
pub use qm31::QM31;
