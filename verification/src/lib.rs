//! Package-installation orchestration for Alpine-based container image builds.
//!
//! Build steps request abstract capabilities ("features"); a per-distribution
//! registry resolves each into build-only and persisted package names, a
//! reconciler batches the names to install and keeps the two name sets of the
//! build context consistent, and a finalizer computes the removal of every
//! build-only package.  The installer subprocess itself is outside this
//! library: every operation here returns the batched command to run as a
//! plain value.

pub mod alpine;
pub mod context;
pub mod names;
pub mod packages;
pub mod reconcile;
pub mod registry;
