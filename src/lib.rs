//! Atomic-release deployment: the release lifecycle, the choice of a rollback
//! target, the retention policy, and the plans of work that carry them out.

pub mod deployement;
pub mod error;
pub mod installation_method;
pub mod links;
pub mod model;
pub mod order;
pub mod plan;
pub mod project;
pub mod release;
