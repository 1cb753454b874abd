//! Event normalization and label-policy reconciliation for a repository bot.
pub mod database;
pub mod event;
pub mod github;
pub mod labels;
pub mod reconcile;
