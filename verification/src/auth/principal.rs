//! Authenticated caller principals.
//!
//! A `Principal` is what authenticating an inbound request results in: a human
//! user (OIDC), a sandbox supervisor (gateway-minted JWT), or an anonymous
//! caller (truly unauthenticated methods like health probes).
//!
//! Sandbox-class handlers compare the principal's `sandbox_id` against the
//! request body's `sandbox_id` to prevent cross-sandbox access.
use vstd::prelude::*;

verus! {

/// The authority a gateway-minted sandbox credential carries.
///
/// The credential is always bound to exactly one sandbox; this narrows *which
/// of that sandbox's* RPCs it may call. It is serialized into the sandbox JWT
/// (`caller_kind` claim) and read back onto [`SandboxPrincipal`].
#[derive(Debug, Clone, Copy, PartialEq, Eq, Structural)]
pub enum SandboxCallerKind {
    /// Full supervisor authority (network + process halves in one place, as in
    /// `combined`/`sidecar`). The default, so tokens without the claim carry it.
    Full,
    /// Process-supervisor-only authority, for a topology where the network proxy
    /// runs in a separate pod (proxy-pod). Denied the network-supervisor RPCs
    /// that read provider secrets or mint upstream credentials
    /// (`GetSandboxProviderEnvironment`, `ExchangeProviderSubjectToken`,
    /// `GetInferenceBundle`); still permitted its own relays, logs, config, and
    /// token refresh.
    Process,
}

impl Default for SandboxCallerKind {
    /// Full authority.
    fn default() -> (res: Self)
        ensures
            res == SandboxCallerKind::Full,
    {
        SandboxCallerKind::Full
    }
}

/// Who is calling. `I` is the identity that the authentication provider vouches
/// for.
#[derive(Debug, Clone)]
pub enum Principal<I> {
    /// Human caller authenticated via OIDC (Keycloak, Entra ID, Okta, etc.).
    User(UserPrincipal<I>),
    /// Sandbox supervisor authenticated by an identity bound to a specific
    /// sandbox UUID. The wrapped `sandbox_id` has to match any sandbox referenced
    /// in the request body for sandbox-class methods.
    Sandbox(SandboxPrincipal),
    /// Truly unauthenticated caller (health probes, reflection). Sandbox-class
    /// and user-class methods reject this variant.
    Anonymous,
}

/// User caller.
#[derive(Debug, Clone)]
pub struct UserPrincipal<I> {
    /// The verified identity from the authentication provider.
    pub identity: I,
}

/// Sandbox caller, bound to one specific sandbox UUID.
#[derive(Debug, Clone)]
pub struct SandboxPrincipal {
    /// Canonical sandbox UUID populated from a verified sandbox credential.
    pub sandbox_id: String,
    /// How this principal was verified: used for audit logs and method-specific
    /// authorization checks.
    pub source: SandboxIdentitySource,
    /// Optional namespace component parsed from sandbox identity credentials.
    pub trust_domain: Option<String>,
}

/// How a [`SandboxPrincipal`] was authenticated.
#[derive(Debug, Clone)]
pub enum SandboxIdentitySource {
    /// Gateway-minted JWT validated against the gateway's signing key.
    BootstrapJwt {
        /// Who minted it.
        issuer: String,
        /// Authority carried by the token's `caller_kind` claim.
        caller_kind: SandboxCallerKind,
    },
    /// Per-sandbox client certificate. Reserved for channel-bound sandbox
    /// identity.
    BootstrapCert {
        /// Fingerprint of the certificate.
        fingerprint: String,
    },
    /// K8s `ServiceAccount` token used to bootstrap a gateway-minted JWT
    /// via `IssueSandboxToken`. Populated only on that one RPC path.
    K8sServiceAccount {
        /// Name of the pod.
        pod_name: String,
        /// UID of the pod.
        pod_uid: String,
    },
}

impl SandboxPrincipal {
    /// The authority this credential carries. Only a gateway-minted JWT can be
    /// scoped; every other source (bootstrap SA token, client cert) is `Full`.
    pub open spec fn authority(&self) -> SandboxCallerKind {
        match self.source {
            SandboxIdentitySource::BootstrapJwt { issuer: _, caller_kind } => caller_kind,
            _ => SandboxCallerKind::Full,
        }
    }

    /// The authority this credential carries.
    #[must_use]
    pub fn caller_kind(&self) -> (res: SandboxCallerKind)
        ensures
            res == self.authority(),
            res == SandboxCallerKind::Process ==> self.source is BootstrapJwt,
    {
        match &self.source {
            SandboxIdentitySource::BootstrapJwt { caller_kind, .. } => *caller_kind,
            _ => SandboxCallerKind::Full,
        }
    }
}

} // verus!
