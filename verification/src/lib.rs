//! Organization repository manager: lists the repositories of a remote
//! account, reconciles them against a local workspace, and reports
//! per-repository drift.
//!
//! The crate holds the reconciliation and remote-listing engine: pagination
//! bookkeeping for the remote catalog, the three-way classification of
//! repository names (cloned / not cloned / local only), and the assembly of a
//! drift status from what was observed in a local working copy. Network,
//! file-system and version-control access stay with the caller, who hands the
//! results in as plain values.

pub mod catalog;
pub mod reconcile;
pub mod status;
pub mod workspace;
