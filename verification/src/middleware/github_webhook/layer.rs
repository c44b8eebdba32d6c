//! The layer that applies the webhook signature check to a service.
use vstd::prelude::*;

verus! {

/// Layer that authorizes all requests using the `X-Hub-Signature-256` header
/// signed with `webhook_secret`.
#[derive(Clone)]
pub struct ValidateGitHubWebhookLayer<Secret> {
    webhook_secret: Secret,
}

impl<Secret> ValidateGitHubWebhookLayer<Secret> {
    /// The secret that request bodies must be signed with.
    pub closed spec fn secret(&self) -> Secret {
        self.webhook_secret
    }

    /// Authorize requests using the `X-Hub-Signature-256` header. If the signature
    /// in that header is not made with `webhook_secret`, the request fails.
    pub fn new(webhook_secret: Secret) -> (layer: Self)
        ensures
            layer.secret() == webhook_secret,
    {
        Self { webhook_secret }
    }

    /// The secret that request bodies must be signed with.
    pub fn webhook_secret(&self) -> (s: &Secret)
        ensures
            *s == self.secret(),
    {
        &self.webhook_secret
    }
}

} // verus!
