//! Host administration core: probing of kernel, package and locale state,
//! classification of privileged command outcomes, and reconciliation of the
//! locale generation manifest.
//!
//! All parsing and decision logic lives here with verified contracts; the
//! surrounding process and file plumbing hands this library plain values.

pub mod addr;
pub mod catalog;
pub mod encode;
pub mod executor;
pub mod kernels;
pub mod locale;
pub mod model;
pub mod reboot;
pub mod reconcile;
pub mod text;
