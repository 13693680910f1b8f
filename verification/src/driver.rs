//! Apple Container compute driver: what it asks of the `container` tool for a
//! sandbox.
use crate::cli::ContainerCli;
use crate::cli::ContainerCliError;
use crate::cli::ContainerCliErrorView;
use crate::compute::pairs;
use crate::compute::DriverSandbox;
use crate::compute::DriverSandboxView;
use crate::compute::GetCapabilitiesResponse;
use crate::config::AppleContainerComputeConfig;
use crate::error::ComputeDriverError;
use crate::error::ComputeDriverErrorView;
use crate::string_map::StringMap;
use crate::text::decimal;
use crate::text::decimal_text;
use crate::text::push_text;
use crate::text::texts;
use crate::text::trimmed;
use vstd::prelude::*;

verus! {

/// Label that marks a container as managed by OpenShell.
pub const LABEL_MANAGED_BY: &'static str = "openshell.ai/managed-by";

/// Value of [`LABEL_MANAGED_BY`].
pub const LABEL_MANAGED_BY_VALUE: &'static str = "openshell";

/// Label that holds the sandbox id.
pub const LABEL_SANDBOX_ID: &'static str = "openshell.ai/sandbox-id";

/// Label that holds the sandbox name.
pub const LABEL_SANDBOX_NAME: &'static str = "openshell.ai/sandbox-name";

/// Label that holds the sandbox namespace.
pub const LABEL_SANDBOX_NAMESPACE: &'static str = "openshell.ai/sandbox-namespace";

/// Where the supervisor binary is mounted in a sandbox.
pub const SUPERVISOR_IMAGE_BINARY_PATH: &'static str = "/openshell-sandbox";

/// Container name prefix for managed sandboxes.
pub const CONTAINER_PREFIX: &'static str = "openshell-";

/// The container name of a sandbox.
pub open spec fn container_name_of(sandbox_name: Seq<char>) -> Seq<char> {
    CONTAINER_PREFIX@ + sandbox_name
}

/// Construct the container name for a given sandbox name.
pub fn container_name(sandbox_name: &str) -> (res: String)
    ensures
        res@ == container_name_of(sandbox_name@),
{
    CONTAINER_PREFIX.to_string().concat(sandbox_name)
}

/// Sandboxes with different names have different containers.
pub proof fn law_container_names_are_distinct(a: Seq<char>, b: Seq<char>)
    requires
        container_name_of(a) == container_name_of(b),
    ensures
        a == b,
{
    let n = CONTAINER_PREFIX@.len() as int;
    assert(a =~= container_name_of(a).skip(n));
    assert(b =~= container_name_of(b).skip(n));
}

/// The driver error for an error of the tool.
pub open spec fn driver_error(e: ContainerCliErrorView) -> ComputeDriverErrorView {
    match e {
        ContainerCliErrorView::NotFound(m) => ComputeDriverErrorView::Message("not found: "@ + m),
        ContainerCliErrorView::AlreadyExists(_) => ComputeDriverErrorView::AlreadyExists,
        other => ComputeDriverErrorView::Message(other.text()),
    }
}

impl ComputeDriverError {
    /// The driver error for an error of the tool.
    pub fn from_cli(err: ContainerCliError) -> (res: Self)
        ensures
            res@ == driver_error(err@),
    {
        match err {
            ContainerCliError::NotFound(msg) => ComputeDriverError::Message(
                "not found: ".to_string().concat(&msg),
            ),
            ContainerCliError::AlreadyExists(_) => ComputeDriverError::AlreadyExists,
            other => ComputeDriverError::Message(other.to_text()),
        }
    }
}

/// Apple Container compute driver managing sandbox containers via the
/// `container` CLI.
#[derive(Debug, Clone)]
pub struct AppleContainerComputeDriver {
    /// Client of the tool.
    pub cli: ContainerCli,
    /// Configuration.
    pub config: AppleContainerComputeConfig,
    /// Version of the gateway that the driver runs in.
    pub gateway_version: String,
}

/// The message about a `container` tool that is not there.
pub open spec fn missing_tool_message(bin: Seq<char>) -> Seq<char> {
    "Apple `container` CLI not found at '"@ + bin
        + "'. Install it from https://github.com/apple/container/releases and ensure `container system start` has been run."@
}

/// The message about a `container` tool that does not answer.
pub open spec fn unreachable_tool_message(e: ContainerCliErrorView) -> Seq<char> {
    "Failed to connect to Apple Container runtime: "@ + e.text()
        + ". Ensure `container system start` has been run."@
}

/// The image of a sandbox: the template's, unless that is blank, else the
/// configured one.
pub open spec fn image_of(
    config: AppleContainerComputeConfig,
    sandbox: DriverSandboxView,
) -> Seq<char> {
    match sandbox.spec {
        Some(spec) => match spec.template {
            Some(template) => if trimmed(template.image).len() > 0 {
                template.image
            } else {
                config.default_image@
            },
            None => config.default_image@,
        },
        None => config.default_image@,
    }
}

/// The gRPC endpoint that a sandbox connects back to.
pub open spec fn endpoint_of(config: AppleContainerComputeConfig) -> Seq<char> {
    if config.grpc_endpoint@.len() > 0 {
        config.grpc_endpoint@
    } else {
        (if config.has_tls() {
            "https"@
        } else {
            "http"@
        }) + "://"@ + config.host_gateway_ip@ + ":"@ + decimal(config.gateway_port as nat)
    }
}

/// The labels by which the driver knows a sandbox's container again.
pub open spec fn management_labels(
    config: AppleContainerComputeConfig,
    sandbox: DriverSandboxView,
) -> Seq<(Seq<char>, Seq<char>)> {
    seq![
        (LABEL_MANAGED_BY@, LABEL_MANAGED_BY_VALUE@),
        (LABEL_SANDBOX_ID@, sandbox.id),
        (LABEL_SANDBOX_NAME@, sandbox.name),
        (LABEL_SANDBOX_NAMESPACE@, config.sandbox_namespace@),
    ]
}

/// The environment variables that the supervisor reads.
pub open spec fn supervisor_environment(
    config: AppleContainerComputeConfig,
    sandbox: DriverSandboxView,
    log_level: Seq<char>,
) -> Seq<(Seq<char>, Seq<char>)> {
    seq![
        ("OPENSHELL_LOG_LEVEL"@, log_level),
        ("OPENSHELL_GRPC_ENDPOINT"@, endpoint_of(config)),
        ("OPENSHELL_SANDBOX_ID"@, sandbox.id),
        ("OPENSHELL_SANDBOX_NAME"@, sandbox.name),
    ]
}

/// The environment variables that the sandbox itself asks for: those of its
/// own, then those of its template.
pub open spec fn requested_environment(sandbox: DriverSandboxView) -> Seq<
    (Seq<char>, Seq<char>),
> {
    match sandbox.spec {
        Some(spec) => spec.environment + (match spec.template {
            Some(template) => template.environment,
            None => Seq::empty(),
        }),
        None => Seq::empty(),
    }
}

/// The host paths to mount, each with its place in the sandbox.
pub open spec fn mounts(config: AppleContainerComputeConfig, token_host_path: Option<Seq<char>>) -> Seq<
    (Seq<char>, Seq<char>),
> {
    mount(config.supervisor_bin.deep_view(), SUPERVISOR_IMAGE_BINARY_PATH@) + mount(
        config.guest_tls_ca.deep_view(),
        "/etc/openshell/tls/client/ca.crt"@,
    ) + mount(config.guest_tls_cert.deep_view(), "/etc/openshell/tls/client/tls.crt"@) + mount(
        config.guest_tls_key.deep_view(),
        "/etc/openshell/tls/client/tls.key"@,
    ) + mount(token_host_path, "/etc/openshell/auth/sandbox.jwt"@)
}

/// A host path to mount, if there is one, with its place in the sandbox.
pub open spec fn mount(host_path: Option<Seq<char>>, place: Seq<char>) -> Seq<
    (Seq<char>, Seq<char>),
> {
    match host_path {
        Some(path) => seq![(path, place)],
        None => Seq::empty(),
    }
}

/// A flag with its value, if there is one.
pub open spec fn optional_flag(flag: Seq<char>, value: Option<Seq<char>>) -> Seq<Seq<char>> {
    match value {
        Some(v) => seq![flag, v],
        None => Seq::empty(),
    }
}

/// The flag `flag` once for each pair, each time followed by the pair's halves
/// with `separator` between them.
pub open spec fn flag_each(
    flag: Seq<char>,
    separator: Seq<char>,
    list: Seq<(Seq<char>, Seq<char>)>,
) -> Seq<Seq<char>>
    decreases list.len(),
{
    if list.len() == 0 {
        Seq::empty()
    } else {
        flag_each(flag, separator, list.drop_last()) + seq![
            flag,
            list.last().0 + separator + list.last().1,
        ]
    }
}

/// The limit on CPUs, if there is one.
pub open spec fn cpu_option(config: AppleContainerComputeConfig) -> Seq<Seq<char>> {
    optional_flag(
        "--cpus"@,
        match config.sandbox_cpus {
            Some(cpus) => Some(decimal(cpus as nat)),
            None => None,
        },
    )
}

/// The options with which a sandbox's container is run.
pub open spec fn run_options(
    config: AppleContainerComputeConfig,
    sandbox: DriverSandboxView,
    token_host_path: Option<Seq<char>>,
    log_level: Seq<char>,
) -> Seq<Seq<char>> {
    let environment = supervisor_environment(config, sandbox, log_level) + requested_environment(
        sandbox,
    );
    flag_each("-l"@, "="@, management_labels(config, sandbox)) + cpu_option(config) + optional_flag(
        "--memory"@,
        config.sandbox_memory.deep_view(),
    ) + flag_each("-e"@, "="@, environment) + flag_each("-v"@, ":"@, mounts(config, token_host_path))
}

/// The command that the container runs: the supervisor.
pub open spec fn supervisor_command(
    config: AppleContainerComputeConfig,
    sandbox: DriverSandboxView,
) -> Seq<Seq<char>> {
    seq![
        SUPERVISOR_IMAGE_BINARY_PATH@,
        "--grpc-endpoint"@,
        endpoint_of(config),
        "--sandbox-id"@,
        sandbox.id,
        "--sandbox-name"@,
        sandbox.name,
    ]
}

/// Appends a flag and the two halves of its value.
fn push_flag(list: &mut Vec<String>, flag: &str, left: &str, separator: &str, right: &str)
    ensures
        texts(final(list)@) == texts(old(list)@) + seq![flag@, left@ + separator@ + right@],
{
    push_text(list, flag);
    let value = left.to_string().concat(separator).concat(right);
    push_text(list, &value);
    proof {
        assert(texts(list@) =~= texts(old(list)@) + seq![flag@, left@ + separator@ + right@]);
    }
}

/// The flags of a list of pairs, one appended.
proof fn lemma_flag_each_push(
    flag: Seq<char>,
    separator: Seq<char>,
    list: Seq<(Seq<char>, Seq<char>)>,
    pair: (Seq<char>, Seq<char>),
)
    ensures
        flag_each(flag, separator, list.push(pair)) == flag_each(flag, separator, list) + seq![
            flag,
            pair.0 + separator + pair.1,
        ],
{
    assert(list.push(pair).drop_last() =~= list);
}

/// The flags of two lists of pairs, one after the other.
proof fn lemma_flag_each_concat(
    flag: Seq<char>,
    separator: Seq<char>,
    a: Seq<(Seq<char>, Seq<char>)>,
    b: Seq<(Seq<char>, Seq<char>)>,
)
    ensures
        flag_each(flag, separator, a + b) == flag_each(flag, separator, a) + flag_each(
            flag,
            separator,
            b,
        ),
    decreases b.len(),
{
    if b.len() == 0 {
        assert(a + b =~= a);
        assert(flag_each(flag, separator, a) + flag_each(flag, separator, b) =~= flag_each(
            flag,
            separator,
            a,
        ));
    } else {
        assert((a + b).drop_last() =~= a + b.drop_last());
        lemma_flag_each_concat(flag, separator, a, b.drop_last());
        assert(flag_each(flag, separator, a + b) =~= flag_each(flag, separator, a) + flag_each(
            flag,
            separator,
            b,
        ));
    }
}

/// Appends `-e KEY=VALUE` for each variable.
fn push_environment(list: &mut Vec<String>, environment: &StringMap<String>)
    ensures
        texts(final(list)@) == texts(old(list)@) + flag_each("-e"@, "="@, pairs(*environment)),
{
    let n: usize = environment.len();
    let mut i: usize = 0;
    proof {
        assert(pairs(*environment).take(0) =~= Seq::empty());
        assert(texts(list@) =~= texts(old(list)@) + flag_each(
            "-e"@,
            "="@,
            pairs(*environment).take(0),
        ));
    }
    while i < n
        invariant
            n == environment.entries().len(),
            i <= n,
            texts(list@) == texts(old(list)@) + flag_each(
                "-e"@,
                "="@,
                pairs(*environment).take(i as int),
            ),
        decreases n - i,
    {
        push_flag(list, "-e", environment.key_at(i), "=", environment.value_at(i));
        proof {
            let done = pairs(*environment).take(i as int);
            let pair = pairs(*environment)[i as int];
            assert(pairs(*environment).take(i + 1) =~= done.push(pair));
            lemma_flag_each_push("-e"@, "="@, done, pair);
            assert(texts(list@) =~= texts(old(list)@) + flag_each(
                "-e"@,
                "="@,
                pairs(*environment).take(i + 1),
            ));
        }
        i += 1;
    }
    proof {
        assert(pairs(*environment).take(n as int) =~= pairs(*environment));
    }
}

/// Appends the environment variables that the sandbox itself asks for.
fn push_requested_environment(list: &mut Vec<String>, sandbox: &DriverSandbox)
    ensures
        texts(final(list)@) == texts(old(list)@) + flag_each(
            "-e"@,
            "="@,
            requested_environment(sandbox@),
        ),
{
    if let Some(spec) = &sandbox.spec {
        push_environment(list, &spec.environment);
        if let Some(template) = &spec.template {
            push_environment(list, &template.environment);
            proof {
                lemma_flag_each_concat(
                    "-e"@,
                    "="@,
                    pairs(spec.environment),
                    pairs(template.environment),
                );
            }
        } else {
            proof {
                assert(requested_environment(sandbox@) =~= pairs(spec.environment));
            }
        }
    }
    proof {
        assert(texts(list@) =~= texts(old(list)@) + flag_each(
            "-e"@,
            "="@,
            requested_environment(sandbox@),
        ));
    }
}

/// Appends `-v HOST:PLACE` if there is a host path.
fn push_mount(list: &mut Vec<String>, host_path: Option<&str>, place: &str)
    ensures
        texts(final(list)@) == texts(old(list)@) + flag_each(
            "-v"@,
            ":"@,
            mount(
                match host_path {
                    Some(path) => Some(path@),
                    None => None,
                },
                place@,
            ),
        ),
{
    match host_path {
        Some(path) => {
            push_flag(list, "-v", path, ":", place);
            proof {
                let one = seq![(path@, place@)];
                assert(one =~= Seq::empty().push((path@, place@)));
                lemma_flag_each_push("-v"@, ":"@, Seq::empty(), (path@, place@));
                assert(texts(list@) =~= texts(old(list)@) + flag_each("-v"@, ":"@, one));
            }
        },
        None => {
            proof {
                assert(texts(list@) =~= texts(old(list)@) + flag_each("-v"@, ":"@, Seq::empty()));
            }
        },
    }
}

/// A displayed path as a slice.
fn path_text(path: &Option<String>) -> (res: Option<&str>)
    ensures
        match (res, path.deep_view()) {
            (Some(r), Some(p)) => r@ == p,
            (None, None) => true,
            _ => false,
        },
{
    match path {
        Some(p) => Some(p.as_str()),
        None => None,
    }
}

impl AppleContainerComputeDriver {
    /// Create a new driver, given what became of [`ContainerCli::verify`]: the
    /// `container` CLI is reachable and the system service is running, or not.
    pub fn new(
        config: AppleContainerComputeConfig,
        gateway_version: &str,
        verified: Result<String, ContainerCliError>,
    ) -> (res: Result<Self, ComputeDriverError>)
        ensures
            match verified {
                Ok(_) => res matches Ok(driver) && driver.config == config && driver.cli.bin@
                    == config.container_bin@ && driver.gateway_version@ == gateway_version@,
                Err(e) => res matches Err(x) && x@ == ComputeDriverErrorView::Message(
                    if e@ matches ContainerCliErrorView::Exec { not_found, message: _ } && not_found {
                        missing_tool_message(config.container_bin@)
                    } else {
                        unreachable_tool_message(e@)
                    },
                ),
            },
    {
        let cli = ContainerCli::new(&config.container_bin);
        let e = match verified {
            Ok(_) => {
                return Ok(
                    AppleContainerComputeDriver {
                        cli,
                        config,
                        gateway_version: gateway_version.to_string(),
                    },
                );
            },
            Err(e) => e,
        };
        let tool_missing = match &e {
            ContainerCliError::Exec(f) => f.not_found,
            _ => false,
        };
        if tool_missing {
            Err(
                ComputeDriverError::Message(
                    "Apple `container` CLI not found at '".to_string().concat(
                        &config.container_bin,
                    ).concat(
                        "'. Install it from https://github.com/apple/container/releases and ensure `container system start` has been run.",
                    ),
                ),
            )
        } else {
            let reason = e.to_text();
            Err(
                ComputeDriverError::Message(
                    "Failed to connect to Apple Container runtime: ".to_string().concat(
                        &reason,
                    ).concat(". Ensure `container system start` has been run."),
                ),
            )
        }
    }

    /// Report driver capabilities. Apple Container does not support GPU
    /// passthrough.
    pub fn capabilities(&self) -> (res: GetCapabilitiesResponse)
        ensures
            res.driver_name@ == "apple-container"@,
            res.driver_version@ == self.gateway_version@,
            res.default_image@ == self.config.default_image@,
            !res.supports_gpu,
    {
        GetCapabilitiesResponse {
            driver_name: "apple-container".to_string(),
            driver_version: self.gateway_version.clone(),
            default_image: self.config.default_image.clone(),
            supports_gpu: false,
        }
    }

    /// Validate a sandbox before creation.
    pub fn validate_sandbox_create(&self, sandbox: &DriverSandbox) -> (res: Result<
        (),
        ComputeDriverError,
    >)
        ensures
            match res {
                Ok(_) => !needs_gpu(sandbox@),
                Err(e) => needs_gpu(sandbox@) && e@ == ComputeDriverErrorView::Precondition(
                    "Apple Container driver does not support GPU sandboxes. GPU passthrough is not available through the macOS Virtualization framework."@,
                ),
            },
    {
        let gpu = match &sandbox.spec {
            Some(spec) => spec.gpu,
            None => false,
        };
        if gpu {
            return Err(
                ComputeDriverError::Precondition(
                    "Apple Container driver does not support GPU sandboxes. GPU passthrough is not available through the macOS Virtualization framework.".to_string(),
                ),
            );
        }
        Ok(())
    }

    /// The image of a sandbox.
    pub fn resolve_image<'a>(&'a self, sandbox: &'a DriverSandbox) -> (res: &'a str)
        ensures
            res@ == image_of(self.config, sandbox@),
    {
        match &sandbox.spec {
            Some(spec) => match &spec.template {
                Some(template) => if !template.image.trim().is_empty() {
                    &template.image
                } else {
                    &self.config.default_image
                },
                None => &self.config.default_image,
            },
            None => &self.config.default_image,
        }
    }

    /// The gRPC endpoint that a sandbox connects back to: the configured one, or
    /// the gateway's port on the host, as containers reach it.
    pub fn effective_grpc_endpoint(&self) -> (res: String)
        ensures
            res@ == endpoint_of(self.config),
    {
        if !self.config.grpc_endpoint.as_str().is_empty() {
            return self.config.grpc_endpoint.clone();
        }
        let scheme = if self.config.tls_enabled() {
            "https"
        } else {
            "http"
        };
        let port = decimal_text(self.config.gateway_port as u64);
        scheme.to_string().concat("://").concat(&self.config.host_gateway_ip).concat(":").concat(
            &port,
        )
    }

    /// The options with which a sandbox's container is run. `log_level` is the
    /// level for this sandbox.
    pub fn build_run_args(
        &self,
        sandbox: &DriverSandbox,
        token_host_path: Option<&str>,
        log_level: &str,
    ) -> (res: Vec<String>)
        ensures
            texts(res@) == run_options(
                self.config,
                sandbox@,
                match token_host_path {
                    Some(path) => Some(path@),
                    None => None,
                },
                log_level@,
            ),
    {
        let mut args: Vec<String> = Vec::new();
        self.push_labels(&mut args, sandbox);
        self.push_limits(&mut args);
        self.push_supervisor_environment(&mut args, sandbox, log_level);
        push_requested_environment(&mut args, sandbox);
        self.push_mounts(&mut args, token_host_path);
        proof {
            let own = supervisor_environment(self.config, sandbox@, log_level@);
            lemma_flag_each_concat("-e"@, "="@, own, requested_environment(sandbox@));
            let token = match token_host_path {
                Some(path) => Some(path@),
                None => None,
            };
            assert(texts(args@) =~= run_options(self.config, sandbox@, token, log_level@));
        }
        args
    }

    /// Appends the labels by which the container is known again.
    fn push_labels(&self, args: &mut Vec<String>, sandbox: &DriverSandbox)
        ensures
            texts(final(args)@) == texts(old(args)@) + flag_each(
                "-l"@,
                "="@,
                management_labels(self.config, sandbox@),
            ),
    {
        push_flag(args, "-l", LABEL_MANAGED_BY, "=", LABEL_MANAGED_BY_VALUE);
        push_flag(args, "-l", LABEL_SANDBOX_ID, "=", &sandbox.id);
        push_flag(args, "-l", LABEL_SANDBOX_NAME, "=", &sandbox.name);
        push_flag(args, "-l", LABEL_SANDBOX_NAMESPACE, "=", &self.config.sandbox_namespace);
        proof {
            let labels = management_labels(self.config, sandbox@);
            lemma_four_flags("-l"@, "="@, labels);
            assert(texts(args@) =~= texts(old(args)@) + flag_each("-l"@, "="@, labels));
        }
    }

    /// Appends the resource limits.
    fn push_limits(&self, args: &mut Vec<String>)
        ensures
            texts(final(args)@) == texts(old(args)@) + cpu_option(self.config) + optional_flag(
                "--memory"@,
                self.config.sandbox_memory.deep_view(),
            ),
    {
        if let Some(cpus) = self.config.sandbox_cpus {
            push_text(args, "--cpus");
            let cpus_text = decimal_text(cpus as u64);
            push_text(args, &cpus_text);
        }
        proof {
            assert(texts(args@) =~= texts(old(args)@) + cpu_option(self.config));
        }
        if let Some(memory) = &self.config.sandbox_memory {
            push_text(args, "--memory");
            push_text(args, memory);
        }
        proof {
            assert(texts(args@) =~= texts(old(args)@) + cpu_option(self.config) + optional_flag(
                "--memory"@,
                self.config.sandbox_memory.deep_view(),
            ));
        }
    }

    /// Appends the environment variables that the supervisor reads.
    fn push_supervisor_environment(
        &self,
        args: &mut Vec<String>,
        sandbox: &DriverSandbox,
        log_level: &str,
    )
        ensures
            texts(final(args)@) == texts(old(args)@) + flag_each(
                "-e"@,
                "="@,
                supervisor_environment(self.config, sandbox@, log_level@),
            ),
    {
        let endpoint = self.effective_grpc_endpoint();
        push_flag(args, "-e", "OPENSHELL_LOG_LEVEL", "=", log_level);
        push_flag(args, "-e", "OPENSHELL_GRPC_ENDPOINT", "=", &endpoint);
        push_flag(args, "-e", "OPENSHELL_SANDBOX_ID", "=", &sandbox.id);
        push_flag(args, "-e", "OPENSHELL_SANDBOX_NAME", "=", &sandbox.name);
        proof {
            let own = supervisor_environment(self.config, sandbox@, log_level@);
            lemma_four_flags("-e"@, "="@, own);
            assert(texts(args@) =~= texts(old(args)@) + flag_each("-e"@, "="@, own));
        }
    }

    /// Appends the mounts: supervisor binary, TLS certificates and sandbox
    /// token, as far as there are any.
    fn push_mounts(&self, args: &mut Vec<String>, token_host_path: Option<&str>)
        ensures
            texts(final(args)@) == texts(old(args)@) + flag_each(
                "-v"@,
                ":"@,
                mounts(
                    self.config,
                    match token_host_path {
                        Some(path) => Some(path@),
                        None => None,
                    },
                ),
            ),
    {
        let ghost start = texts(args@);
        let ghost token = match token_host_path {
            Some(path) => Some(path@),
            None => None,
        };
        push_mount(args, path_text(&self.config.supervisor_bin), SUPERVISOR_IMAGE_BINARY_PATH);
        push_mount(args, path_text(&self.config.guest_tls_ca), "/etc/openshell/tls/client/ca.crt");
        push_mount(
            args,
            path_text(&self.config.guest_tls_cert),
            "/etc/openshell/tls/client/tls.crt",
        );
        push_mount(
            args,
            path_text(&self.config.guest_tls_key),
            "/etc/openshell/tls/client/tls.key",
        );
        push_mount(args, token_host_path, "/etc/openshell/auth/sandbox.jwt");
        proof {
            lemma_mount_flags(start, self.config, token);
        }
    }

    /// The command that a sandbox's container runs: the supervisor.
    pub fn build_supervisor_command(&self, sandbox: &DriverSandbox) -> (res: Vec<String>)
        ensures
            texts(res@) == supervisor_command(self.config, sandbox@),
    {
        let endpoint = self.effective_grpc_endpoint();
        let mut cmd: Vec<String> = Vec::new();
        push_text(&mut cmd, SUPERVISOR_IMAGE_BINARY_PATH);
        push_text(&mut cmd, "--grpc-endpoint");
        push_text(&mut cmd, &endpoint);
        push_text(&mut cmd, "--sandbox-id");
        push_text(&mut cmd, &sandbox.id);
        push_text(&mut cmd, "--sandbox-name");
        push_text(&mut cmd, &sandbox.name);
        proof {
            assert(texts(cmd@) =~= supervisor_command(self.config, sandbox@));
        }
        cmd
    }
}

/// The mount options, appended one after another.
proof fn lemma_mount_flags(
    start: Seq<Seq<char>>,
    config: AppleContainerComputeConfig,
    token: Option<Seq<char>>,
)
    ensures
        start + flag_each(
            "-v"@,
            ":"@,
            mount(config.supervisor_bin.deep_view(), SUPERVISOR_IMAGE_BINARY_PATH@),
        ) + flag_each(
            "-v"@,
            ":"@,
            mount(config.guest_tls_ca.deep_view(), "/etc/openshell/tls/client/ca.crt"@),
        ) + flag_each(
            "-v"@,
            ":"@,
            mount(config.guest_tls_cert.deep_view(), "/etc/openshell/tls/client/tls.crt"@),
        ) + flag_each(
            "-v"@,
            ":"@,
            mount(config.guest_tls_key.deep_view(), "/etc/openshell/tls/client/tls.key"@),
        ) + flag_each("-v"@, ":"@, mount(token, "/etc/openshell/auth/sandbox.jwt"@)) == start
            + flag_each("-v"@, ":"@, mounts(config, token)),
{
    let supervisor = mount(config.supervisor_bin.deep_view(), SUPERVISOR_IMAGE_BINARY_PATH@);
    let ca = mount(config.guest_tls_ca.deep_view(), "/etc/openshell/tls/client/ca.crt"@);
    let cert = mount(config.guest_tls_cert.deep_view(), "/etc/openshell/tls/client/tls.crt"@);
    let key = mount(config.guest_tls_key.deep_view(), "/etc/openshell/tls/client/tls.key"@);
    let jwt = mount(token, "/etc/openshell/auth/sandbox.jwt"@);
    lemma_flag_each_append(start, "-v"@, ":"@, supervisor, ca);
    lemma_flag_each_append(start, "-v"@, ":"@, supervisor + ca, cert);
    lemma_flag_each_append(start, "-v"@, ":"@, supervisor + ca + cert, key);
    lemma_flag_each_append(start, "-v"@, ":"@, supervisor + ca + cert + key, jwt);
}

/// The flags of two lists of pairs, appended one after the other.
proof fn lemma_flag_each_append(
    start: Seq<Seq<char>>,
    flag: Seq<char>,
    separator: Seq<char>,
    a: Seq<(Seq<char>, Seq<char>)>,
    b: Seq<(Seq<char>, Seq<char>)>,
)
    ensures
        start + flag_each(flag, separator, a) + flag_each(flag, separator, b) == start + flag_each(
            flag,
            separator,
            a + b,
        ),
{
    lemma_flag_each_concat(flag, separator, a, b);
    assert(start + flag_each(flag, separator, a) + flag_each(flag, separator, b) =~= start + (
    flag_each(flag, separator, a) + flag_each(flag, separator, b)));
}

/// The flags of four pairs, written out.
proof fn lemma_four_flags(
    flag: Seq<char>,
    separator: Seq<char>,
    list: Seq<(Seq<char>, Seq<char>)>,
)
    requires
        list.len() == 4,
    ensures
        flag_each(flag, separator, list) == seq![
            flag,
            list[0].0 + separator + list[0].1,
            flag,
            list[1].0 + separator + list[1].1,
            flag,
            list[2].0 + separator + list[2].1,
            flag,
            list[3].0 + separator + list[3].1,
        ],
{
    reveal_with_fuel(flag_each, 5);
    assert(flag_each(flag, separator, list) =~= seq![
        flag,
        list[0].0 + separator + list[0].1,
        flag,
        list[1].0 + separator + list[1].1,
        flag,
        list[2].0 + separator + list[2].1,
        flag,
        list[3].0 + separator + list[3].1,
    ]);
}

/// Whether a sandbox needs a GPU.
pub open spec fn needs_gpu(sandbox: DriverSandboxView) -> bool {
    sandbox.spec matches Some(spec) && spec.gpu
}

/// What `KEY=VALUE` says: the text before the first equals sign, and the text
/// after it.
pub open spec fn key_and_value(arg: Seq<char>) -> Option<(Seq<char>, Seq<char>)> {
    match arg.index_of_first('=') {
        Some(i) => Some((arg.take(i), arg.skip(i + 1))),
        None => None,
    }
}

/// A key without an equals sign is read back with its value.
proof fn lemma_key_and_value(key: Seq<char>, value: Seq<char>)
    requires
        forall|j: int| 0 <= j < key.len() ==> key[j] != '=',
    ensures
        key_and_value(key + "="@ + value) == Some((key, value)),
{
    reveal_strlit("=");
    let arg = key + "="@ + value;
    let n = key.len() as int;
    assert(arg[n] == '=');
    assert(arg.contains('='));
    arg.index_of_first_ensures('=');
    let i = arg.index_of_first('=')->0;
    if i < n {
        assert(arg[i] == key[i]);
    }
    assert(i == n);
    assert(arg.take(n) =~= key);
    assert(arg.skip(n + 1) =~= value);
}

/// A container is run with the labels by which it is known again: the options
/// start with one label option for each of them, and each says what it should,
/// whatever id and name the sandbox has.
pub proof fn law_container_is_labelled(
    config: AppleContainerComputeConfig,
    sandbox: DriverSandboxView,
    token_host_path: Option<Seq<char>>,
    log_level: Seq<char>,
    i: int,
)
    requires
        0 <= i < 4,
    ensures
        run_options(config, sandbox, token_host_path, log_level).len() >= 8,
        run_options(config, sandbox, token_host_path, log_level)[2 * i] == "-l"@,
        key_and_value(run_options(config, sandbox, token_host_path, log_level)[2 * i + 1]) == Some(
            management_labels(config, sandbox)[i],
        ),
{
    let labels = management_labels(config, sandbox);
    lemma_four_flags("-l"@, "="@, labels);
    reveal_strlit("openshell.ai/managed-by");
    reveal_strlit("openshell.ai/sandbox-id");
    reveal_strlit("openshell.ai/sandbox-name");
    reveal_strlit("openshell.ai/sandbox-namespace");
    lemma_key_and_value(labels[i].0, labels[i].1);
}

/// The supervisor that a container runs is the mounted one, and the endpoint, id
/// and name that it is given as arguments are those of its environment.
pub proof fn law_supervisor_is_told_consistently(
    config: AppleContainerComputeConfig,
    sandbox: DriverSandboxView,
    token_host_path: Option<Seq<char>>,
    log_level: Seq<char>,
)
    ensures
        config.supervisor_bin matches Some(bin) ==> mounts(config, token_host_path).contains(
            (bin@, supervisor_command(config, sandbox)[0]),
        ),
        supervisor_environment(config, sandbox, log_level).contains(
            ("OPENSHELL_GRPC_ENDPOINT"@, supervisor_command(config, sandbox)[2]),
        ),
        supervisor_environment(config, sandbox, log_level).contains(
            ("OPENSHELL_SANDBOX_ID"@, supervisor_command(config, sandbox)[4]),
        ),
        supervisor_environment(config, sandbox, log_level).contains(
            ("OPENSHELL_SANDBOX_NAME"@, supervisor_command(config, sandbox)[6]),
        ),
{
    if let Some(bin) = config.supervisor_bin {
        assert(mounts(config, token_host_path)[0] == (bin@, SUPERVISOR_IMAGE_BINARY_PATH@));
    }
    let environment = supervisor_environment(config, sandbox, log_level);
    assert(environment[1] == ("OPENSHELL_GRPC_ENDPOINT"@, endpoint_of(config)));
    assert(environment[2] == ("OPENSHELL_SANDBOX_ID"@, sandbox.id));
    assert(environment[3] == ("OPENSHELL_SANDBOX_NAME"@, sandbox.name));
}

/// Each pair of a list is handed to the tool as one option, in order.
pub proof fn law_every_pair_is_an_option(
    flag: Seq<char>,
    separator: Seq<char>,
    list: Seq<(Seq<char>, Seq<char>)>,
    i: int,
)
    requires
        0 <= i < list.len(),
    ensures
        flag_each(flag, separator, list).len() == 2 * list.len(),
        flag_each(flag, separator, list)[2 * i] == flag,
        flag_each(flag, separator, list)[2 * i + 1] == list[i].0 + separator + list[i].1,
    decreases list.len(),
{
    let front = list.drop_last();
    if front.len() > 0 {
        law_every_pair_is_an_option(
            flag,
            separator,
            front,
            if i < front.len() {
                i
            } else {
                0
            },
        );
    } else {
        reveal_with_fuel(flag_each, 2);
    }
}

} // verus!
