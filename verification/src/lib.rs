//! Decision logic of an autoscaler for Gitea Actions runners.
pub mod config;
pub mod decision;
pub mod gitea;
pub mod history;
pub mod jobs;
pub mod laws;
pub mod names;
pub mod operations;
pub mod outside;
pub mod picks;
pub mod runners;
pub mod scaler;
pub mod text;
pub mod tick;
