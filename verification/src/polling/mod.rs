//! Polling of target providers (Docker containers, Kubernetes pods)

pub mod providers;
