//! Verified core of a trust-region Bayesian optimizer: bound declarations,
//! the observation memory, the forgetting policy, the hyperparameter line-search
//! controller, the bound-constrained minimizer's task decoding and the
//! ask/tell orchestration decisions.

pub mod bounds_transforms;
pub mod bound_types;
pub mod bounds;
pub mod utils;
pub mod memory;
pub mod tune;
pub mod lbfgsb;
pub mod labcat;
