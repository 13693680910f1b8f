//! Configuration for the Apple Container compute driver.
use vstd::prelude::*;

verus! {

/// Gateway-local configuration for the Apple Container compute driver.
///
/// Corresponds to `[openshell.drivers.apple-container]` in the gateway TOML.
/// Paths are held as they are displayed.
#[derive(Debug, Clone)]
pub struct AppleContainerComputeConfig {
    /// Default OCI image for sandboxes.
    pub default_image: String,
    /// Image pull policy for sandbox images.
    ///
    /// Supported values: `""` (default, pull if not present), `"ifnotpresent"`,
    /// `"always"`, `"never"`.
    pub image_pull_policy: String,
    /// Namespace label applied to Apple Container sandboxes.
    pub sandbox_namespace: String,
    /// Gateway gRPC endpoint the sandbox connects back to.
    ///
    /// When empty, the driver uses the host's gateway IP and the configured
    /// port.
    pub grpc_endpoint: String,
    /// Gateway listen port used to construct the gRPC endpoint.
    pub gateway_port: u16,
    /// IP at which a container reaches the host.
    pub host_gateway_ip: String,
    /// Optional override for the `openshell-sandbox` supervisor binary
    /// mounted into containers.
    pub supervisor_bin: Option<String>,
    /// Supervisor image containing the Linux `openshell-sandbox` binary.
    pub supervisor_image: String,
    /// Host-side CA certificate for sandbox mTLS.
    pub guest_tls_ca: Option<String>,
    /// Host-side client certificate for sandbox mTLS.
    pub guest_tls_cert: Option<String>,
    /// Host-side private key for sandbox mTLS.
    pub guest_tls_key: Option<String>,
    /// Number of CPUs to allocate to each sandbox container.
    pub sandbox_cpus: Option<u32>,
    /// Memory limit per sandbox container (e.g. "2G", "512M").
    pub sandbox_memory: Option<String>,
    /// Stop timeout in seconds before force-killing a container.
    pub stop_timeout_secs: u32,
    /// Path to the `container` CLI binary.
    ///
    /// Defaults to searching PATH for `container`.
    pub container_bin: String,
    /// Log level for sandbox supervisor processes.
    pub log_level: String,
}

impl AppleContainerComputeConfig {
    /// The configuration of a gateway that sets nothing: sandboxes run
    /// `default_image`, and the supervisor image is that of the gateway's own
    /// version.
    pub fn with_defaults(default_image: &str, gateway_version: &str) -> (res: Self)
        ensures
            res.default_image@ == default_image@,
            res.image_pull_policy@.len() == 0,
            res.sandbox_namespace@ == "default"@,
            res.grpc_endpoint@.len() == 0,
            res.gateway_port == 0,
            res.host_gateway_ip@ == "192.168.64.1"@,
            res.supervisor_bin is None,
            res.supervisor_image@ == supervisor_image_of(gateway_version@),
            res.guest_tls_ca is None,
            res.guest_tls_cert is None,
            res.guest_tls_key is None,
            res.sandbox_cpus is None,
            res.sandbox_memory is None,
            res.stop_timeout_secs == 10,
            res.container_bin@ == "container"@,
            res.log_level@.len() == 0,
    {
        AppleContainerComputeConfig {
            default_image: default_image.to_string(),
            image_pull_policy: String::new(),
            sandbox_namespace: "default".to_string(),
            grpc_endpoint: String::new(),
            gateway_port: 0,
            host_gateway_ip: "192.168.64.1".to_string(),
            supervisor_bin: None,
            supervisor_image: default_supervisor_image(gateway_version),
            guest_tls_ca: None,
            guest_tls_cert: None,
            guest_tls_key: None,
            sandbox_cpus: None,
            sandbox_memory: None,
            stop_timeout_secs: 10,
            container_bin: "container".to_string(),
            log_level: String::new(),
        }
    }

    /// Whether TLS client certs are fully configured for guest mTLS.
    pub open spec fn has_tls(&self) -> bool {
        self.guest_tls_ca is Some && self.guest_tls_cert is Some && self.guest_tls_key is Some
    }

    /// Whether TLS client certs are fully configured for guest mTLS.
    #[must_use]
    pub fn tls_enabled(&self) -> (res: bool)
        ensures
            res == self.has_tls(),
    {
        self.guest_tls_ca.is_some() && self.guest_tls_cert.is_some() && self.guest_tls_key.is_some()
    }
}

/// The supervisor image of a gateway version.
pub open spec fn supervisor_image_of(gateway_version: Seq<char>) -> Seq<char> {
    "ghcr.io/nvidia/openshell/supervisor:"@ + gateway_version
}

/// The supervisor image of a gateway version.
pub fn default_supervisor_image(gateway_version: &str) -> (res: String)
    ensures
        res@ == supervisor_image_of(gateway_version@),
{
    "ghcr.io/nvidia/openshell/supervisor:".to_string().concat(gateway_version)
}

} // verus!
