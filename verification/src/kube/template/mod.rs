//! Normalizing a source workload into a canonical job template.

pub mod cronjob;
pub mod deployment;
