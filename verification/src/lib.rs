//! Automated dependency updates for Helm charts and Dockerfiles: the verified core.
pub mod text;
pub mod fmt;
pub mod util;
pub mod error;
pub mod manager;
pub mod registry;
pub mod versioning;
pub mod config;
pub mod automerge;
pub mod changelog;
pub mod updater;
pub mod lockfile;
pub mod platform;
pub mod orchestrator;
pub mod dashboard;
pub mod scheduling;
pub mod grouping;
pub mod replacement;
pub mod rebase;
pub mod scan;
pub mod regexp;
