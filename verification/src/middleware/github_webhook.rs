//! Verification of signed webhooks received from GitHub.
//!
//! A request is authorized by its `X-Hub-Signature-256` header, which carries the
//! hex-encoded HMAC-SHA256 of the request body under the webhook secret.
pub mod future;
pub mod layer;
pub mod signature;
