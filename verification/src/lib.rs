pub mod cli;
pub mod error;
pub mod kube;
pub mod strmap;
