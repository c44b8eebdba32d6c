//! Request middleware.
pub mod github_webhook;
