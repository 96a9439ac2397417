//! Registered connections to Kubernetes clusters.
//!
//! - `input_validation`: the rules for names, descriptions and tags.
//! - `cluster_manager`: the registry of clusters in a SQLite table.
//! - `import`: discovery of contexts in credential bundles, and the
//!   isolation of one context into a bundle of its own.
//! - `migration`: the sweep that registers the contexts of legacy bundles.
//! - `client`: which credentials a session with a cluster uses.
//! - `watcher`: the registry of running watches and log tails.
//! - `config`: directories, file names and the announcing of changes.
//! - `k8s`: what is shown of the resources of a cluster.

pub mod client;
pub mod cluster_manager;
pub mod config;
pub mod import;
pub mod input_validation;
pub mod k8s;
pub mod migration;
pub mod watcher;
