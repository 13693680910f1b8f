//! Laws on how a sandbox's container is run.
use crate::cli::ContainerCliError;
use crate::compute::DriverSandbox;
use crate::compute::GetCapabilitiesResponse;
use crate::config::default_supervisor_image;
use crate::config::AppleContainerComputeConfig;
use crate::driver::container_name;
use crate::driver::cpu_option;
use crate::driver::driver_error;
use crate::driver::flag_each;
use crate::driver::image_of;
use crate::driver::law_every_pair_is_an_option;
use crate::driver::management_labels;
use crate::driver::mounts;
use crate::driver::optional_flag;
use crate::driver::requested_environment;
use crate::driver::run_options;
use crate::driver::supervisor_environment;
use crate::driver::AppleContainerComputeDriver;
use crate::error::ComputeDriverError;
use crate::laws::tool::is_signed_decimal;
use crate::laws::tool::lemma_is_signed_decimal;
use crate::laws::words::blank;
use crate::laws::words::is_decimal;
use crate::laws::words::lemma_blank;
use crate::laws::words::lemma_is_decimal;
use crate::text::decimal;
use crate::text::signed_decimal;
use crate::text::texts;
use vstd::prelude::*;

verus! {

/// A sandbox is refused if and only if its spec asks for a GPU, whatever else it
/// asks for.
pub proof fn law_gpu_sandboxes_are_refused(
    driver: AppleContainerComputeDriver,
    sandbox: DriverSandbox,
    res: Result<(), ComputeDriverError>,
)
    requires
        call_ensures(
            AppleContainerComputeDriver::validate_sandbox_create,
            (&driver, &sandbox),
            res,
        ),
    ensures
        res is Err <==> (sandbox.spec matches Some(spec) && spec.gpu),
        res matches Err(e) ==> e is Precondition,
{
}

/// Nothing but the GPU flag decides whether a sandbox is refused: two sandboxes
/// that agree on it are both accepted or both refused, by any two drivers.
pub proof fn law_only_the_gpu_flag_decides(
    a: AppleContainerComputeDriver,
    b: AppleContainerComputeDriver,
    x: DriverSandbox,
    y: DriverSandbox,
    of_x: Result<(), ComputeDriverError>,
    of_y: Result<(), ComputeDriverError>,
)
    requires
        call_ensures(AppleContainerComputeDriver::validate_sandbox_create, (&a, &x), of_x),
        call_ensures(AppleContainerComputeDriver::validate_sandbox_create, (&b, &y), of_y),
        (x.spec matches Some(s) && s.gpu) == (y.spec matches Some(s) && s.gpu),
    ensures
        of_x is Ok <==> of_y is Ok,
{
}

/// A container is named after its sandbox.
pub proof fn law_containers_are_named_after_sandboxes(sandbox_name: &str, res: String)
    requires
        call_ensures(container_name, (sandbox_name,), res),
    ensures
        res@ == "openshell-"@ + sandbox_name@,
{
}

/// The image that a template names, as long as that is more than white space; else
/// the configured one.
pub open spec fn chosen_image(
    config: AppleContainerComputeConfig,
    sandbox: DriverSandbox,
) -> Seq<char> {
    if sandbox.spec matches Some(spec) && spec.template matches Some(template) && !blank(
        template.image@,
    ) {
        sandbox.spec->0.template->0.image@
    } else {
        config.default_image@
    }
}

/// A sandbox runs its template's image unless that is blank, and the configured
/// image else.
pub proof fn law_templates_choose_the_image(
    driver: AppleContainerComputeDriver,
    sandbox: DriverSandbox,
    res: &str,
)
    requires
        call_ensures(AppleContainerComputeDriver::resolve_image, (&driver, &sandbox), res),
    ensures
        res@ == chosen_image(driver.config, sandbox),
{
    lemma_chosen_image(driver.config, sandbox);
}

/// The image of a sandbox in contracts is the chosen one.
pub proof fn lemma_chosen_image(config: AppleContainerComputeConfig, sandbox: DriverSandbox)
    ensures
        image_of(config, sandbox@) == chosen_image(config, sandbox),
{
    if let Some(spec) = sandbox.spec {
        if let Some(template) = spec.template {
            lemma_blank(template.image@);
        }
    }
}

/// Guest TLS takes all three files.
pub proof fn law_tls_takes_all_three_files(config: AppleContainerComputeConfig, res: bool)
    requires
        call_ensures(AppleContainerComputeConfig::tls_enabled, (&config,), res),
    ensures
        res <==> config.guest_tls_ca is Some && config.guest_tls_cert is Some
            && config.guest_tls_key is Some,
{
}

/// A sandbox connects back to the configured endpoint; where there is none, to the
/// gateway's port on the host, over TLS if all three of its files are configured.
pub proof fn law_endpoint_is_configured_or_on_the_host(
    driver: AppleContainerComputeDriver,
    res: String,
)
    requires
        call_ensures(AppleContainerComputeDriver::effective_grpc_endpoint, (&driver,), res),
    ensures
        driver.config.grpc_endpoint@.len() > 0 ==> res@ == driver.config.grpc_endpoint@,
        driver.config.grpc_endpoint@.len() == 0 ==> exists|port: Seq<char>|
            {
                &&& #[trigger] is_decimal(port, driver.config.gateway_port as int)
                &&& res@ == (if driver.config.guest_tls_ca is Some && driver.config.guest_tls_cert
                    is Some && driver.config.guest_tls_key is Some {
                    "https"@
                } else {
                    "http"@
                }) + "://"@ + driver.config.host_gateway_ip@ + ":"@ + port
            },
{
    lemma_is_decimal(driver.config.gateway_port as nat);
    assert(is_decimal(
        decimal(driver.config.gateway_port as nat),
        driver.config.gateway_port as int,
    ));
}

/// Whether the options at position `i`, counted in pairs, are `flag` and `value`.
pub open spec fn option_at(
    options: Seq<String>,
    i: int,
    flag: Seq<char>,
    value: Seq<char>,
) -> bool {
    &&& 0 <= i
    &&& 2 * i + 1 < options.len()
    &&& options[2 * i]@ == flag
    &&& options[2 * i + 1]@ == value
}

/// One if there is a value, none if not.
pub open spec fn one_if<T>(value: Option<T>) -> int {
    if value is Some {
        1
    } else {
        0
    }
}

/// The number of limits that are configured.
pub open spec fn limits(config: AppleContainerComputeConfig) -> int {
    one_if(config.sandbox_cpus) + one_if(config.sandbox_memory)
}

/// The number of environment variables that a sandbox's spec sets.
pub open spec fn own_variables(sandbox: DriverSandbox) -> int {
    match sandbox.spec {
        Some(spec) => spec.environment.entries().len() as int,
        None => 0,
    }
}

/// The number of environment variables that a sandbox's template sets.
pub open spec fn template_variables(sandbox: DriverSandbox) -> int {
    match sandbox.spec {
        Some(spec) => match spec.template {
            Some(template) => template.environment.entries().len() as int,
            None => 0,
        },
        None => 0,
    }
}

/// The options in contracts, in pairs.
proof fn lemma_option_at(
    options: Seq<String>,
    before: Seq<Seq<char>>,
    flag: Seq<char>,
    separator: Seq<char>,
    list: Seq<(Seq<char>, Seq<char>)>,
    after: Seq<Seq<char>>,
    n: int,
)
    requires
        texts(options) == before + flag_each(flag, separator, list) + after,
        before.len() == 2 * n,
    ensures
        flag_each(flag, separator, list).len() == 2 * list.len(),
        forall|k: int|
            0 <= k < list.len() ==> option_at(
                options,
                n + k,
                flag,
                (#[trigger] list[k]).0 + separator + list[k].1,
            ),
{
    if list.len() > 0 {
        law_every_pair_is_an_option(flag, separator, list, 0);
    } else {
        assert(flag_each(flag, separator, list).len() == 0);
    }
    let all = texts(options);
    assert forall|k: int| 0 <= k < list.len() implies option_at(
        options,
        n + k,
        flag,
        (#[trigger] list[k]).0 + separator + list[k].1,
    ) by {
        law_every_pair_is_an_option(flag, separator, list, k);
        let each = flag_each(flag, separator, list);
        assert(all.len() == before.len() + each.len() + after.len());
        assert(all.len() == options.len());
        assert(all[2 * n + 2 * k] == each[2 * k]);
        assert(all[2 * n + 2 * k + 1] == each[2 * k + 1]);
        assert(2 * (n + k) == 2 * n + 2 * k);
        assert(all[2 * (n + k)] == options[2 * (n + k)]@);
        assert(all[2 * (n + k) + 1] == options[2 * (n + k) + 1]@);
    }
}

/// The options with which a container is run start with the labels by which it is
/// known again.
pub proof fn law_run_options_label_the_container(
    driver: AppleContainerComputeDriver,
    sandbox: DriverSandbox,
    token: Option<&str>,
    log_level: &str,
    res: Vec<String>,
)
    requires
        call_ensures(
            AppleContainerComputeDriver::build_run_args,
            (&driver, &sandbox, token, log_level),
            res,
        ),
    ensures
        option_at(res@, 0, "-l"@, "openshell.ai/managed-by"@ + "="@ + "openshell"@),
        option_at(res@, 1, "-l"@, "openshell.ai/sandbox-id"@ + "="@ + sandbox.id@),
        option_at(res@, 2, "-l"@, "openshell.ai/sandbox-name"@ + "="@ + sandbox.name@),
        option_at(
            res@,
            3,
            "-l"@,
            "openshell.ai/sandbox-namespace"@ + "="@ + driver.config.sandbox_namespace@,
        ),
{
    lemma_parts(driver, sandbox, token, log_level, res);
    let labels = management_labels(driver.config, sandbox@);
    assert(labels[0] == ("openshell.ai/managed-by"@, "openshell"@));
    assert(labels[1] == ("openshell.ai/sandbox-id"@, sandbox.id@));
    assert(labels[2] == ("openshell.ai/sandbox-name"@, sandbox.name@));
    assert(labels[3] == ("openshell.ai/sandbox-namespace"@, driver.config.sandbox_namespace@));
}

/// The parts of the options, each with its place.
proof fn lemma_parts(
    driver: AppleContainerComputeDriver,
    sandbox: DriverSandbox,
    token: Option<&str>,
    log_level: &str,
    res: Vec<String>,
)
    requires
        call_ensures(
            AppleContainerComputeDriver::build_run_args,
            (&driver, &sandbox, token, log_level),
            res,
        ),
    ensures
        ({
            let config = driver.config;
            let labels = management_labels(config, sandbox@);
            let environment = supervisor_environment(config, sandbox@, log_level@)
                + requested_environment(sandbox@);
            let mounted = mounts(config, text_of(token));
            let c = limits(config);
            &&& labels.len() == 4
            &&& res@.len() == 2 * (4 + c + environment.len() + mounted.len())
            &&& forall|k: int|
                0 <= k < 4 ==> option_at(
                    res@,
                    k,
                    "-l"@,
                    (#[trigger] labels[k]).0 + "="@ + labels[k].1,
                )
            &&& config.sandbox_cpus matches Some(cpus) ==> option_at(
                res@,
                4,
                "--cpus"@,
                decimal(cpus as nat),
            )
            &&& config.sandbox_memory matches Some(memory) ==> option_at(
                res@,
                4 + one_if(config.sandbox_cpus),
                "--memory"@,
                memory@,
            )
            &&& forall|k: int|
                0 <= k < environment.len() ==> option_at(
                    res@,
                    4 + c + k,
                    "-e"@,
                    (#[trigger] environment[k]).0 + "="@ + environment[k].1,
                )
            &&& forall|k: int|
                0 <= k < mounted.len() ==> option_at(
                    res@,
                    4 + c + environment.len() + k,
                    "-v"@,
                    (#[trigger] mounted[k]).0 + ":"@ + mounted[k].1,
                )
        }),
{
    let config = driver.config;
    let labels = management_labels(config, sandbox@);
    let environment = supervisor_environment(config, sandbox@, log_level@) + requested_environment(
        sandbox@,
    );
    let mounted = mounts(config, text_of(token));
    let l = flag_each("-l"@, "="@, labels);
    let cpu = cpu_option(config);
    let memory = optional_flag("--memory"@, config.sandbox_memory.deep_view());
    let e = flag_each("-e"@, "="@, environment);
    let v = flag_each("-v"@, ":"@, mounted);
    let none = Seq::<Seq<char>>::empty();
    let all = texts(res@);
    assert(all == run_options(config, sandbox@, text_of(token), log_level@));
    assert(all =~= l + cpu + memory + e + v);
    assert(all =~= none + l + (cpu + memory + e + v));
    lemma_option_at(res@, none, "-l"@, "="@, labels, cpu + memory + e + v, 0);
    assert(all =~= (l + cpu + memory) + e + v);
    lemma_option_at(res@, l + cpu + memory, "-e"@, "="@, environment, v, 4 + limits(config));
    assert(all =~= (l + cpu + memory + e) + v + none);
    lemma_option_at(
        res@,
        l + cpu + memory + e,
        "-v"@,
        ":"@,
        mounted,
        none,
        4 + limits(config) + environment.len(),
    );
    if let Some(cpus) = config.sandbox_cpus {
        assert(all[8] == cpu[0] && all[9] == cpu[1]);
        assert(all[8] == res@[8]@ && all[9] == res@[9]@);
    }
    if let Some(m) = config.sandbox_memory {
        let i = 4 + one_if(config.sandbox_cpus);
        assert(all[2 * i] == memory[0] && all[2 * i + 1] == memory[1]);
        assert(all[2 * i] == res@[2 * i]@ && all[2 * i + 1] == res@[2 * i + 1]@);
    }
}

/// The text of an optional slice.
pub open spec fn text_of(slice: Option<&str>) -> Option<Seq<char>> {
    match slice {
        Some(s) => Some(s@),
        None => None,
    }
}

/// The limits on CPUs and memory are passed behind the labels, each if and only
/// if it is configured: what follows them is the first environment variable.
pub proof fn law_run_options_pass_the_limits(
    driver: AppleContainerComputeDriver,
    sandbox: DriverSandbox,
    token: Option<&str>,
    log_level: &str,
    res: Vec<String>,
)
    requires
        call_ensures(
            AppleContainerComputeDriver::build_run_args,
            (&driver, &sandbox, token, log_level),
            res,
        ),
    ensures
        driver.config.sandbox_cpus matches Some(cpus) ==> exists|n: Seq<char>|
            #[trigger] is_decimal(n, cpus as int) && option_at(res@, 4, "--cpus"@, n),
        driver.config.sandbox_memory matches Some(memory) ==> option_at(
            res@,
            4 + one_if(driver.config.sandbox_cpus),
            "--memory"@,
            memory@,
        ),
        option_at(
            res@,
            4 + limits(driver.config),
            "-e"@,
            "OPENSHELL_LOG_LEVEL"@ + "="@ + log_level@,
        ),
{
    lemma_parts(driver, sandbox, token, log_level, res);
    let environment = supervisor_environment(driver.config, sandbox@, log_level@)
        + requested_environment(sandbox@);
    assert(environment[0] == ("OPENSHELL_LOG_LEVEL"@, log_level@));
    if let Some(cpus) = driver.config.sandbox_cpus {
        lemma_is_decimal(cpus as nat);
        assert(is_decimal(decimal(cpus as nat), cpus as int));
    }
}

/// The supervisor is told its log level, the endpoint to connect back to, and the
/// sandbox's id and name, in its environment.
pub proof fn law_run_options_tell_the_supervisor(
    driver: AppleContainerComputeDriver,
    sandbox: DriverSandbox,
    token: Option<&str>,
    log_level: &str,
    endpoint: String,
    res: Vec<String>,
)
    requires
        call_ensures(
            AppleContainerComputeDriver::build_run_args,
            (&driver, &sandbox, token, log_level),
            res,
        ),
        call_ensures(AppleContainerComputeDriver::effective_grpc_endpoint, (&driver,), endpoint),
    ensures
        ({
            let first = 4 + limits(driver.config);
            &&& option_at(res@, first, "-e"@, "OPENSHELL_LOG_LEVEL"@ + "="@ + log_level@)
            &&& option_at(
                res@,
                first + 1,
                "-e"@,
                "OPENSHELL_GRPC_ENDPOINT"@ + "="@ + endpoint@,
            )
            &&& option_at(res@, first + 2, "-e"@, "OPENSHELL_SANDBOX_ID"@ + "="@ + sandbox.id@)
            &&& option_at(
                res@,
                first + 3,
                "-e"@,
                "OPENSHELL_SANDBOX_NAME"@ + "="@ + sandbox.name@,
            )
        }),
{
    lemma_parts(driver, sandbox, token, log_level, res);
    let environment = supervisor_environment(driver.config, sandbox@, log_level@)
        + requested_environment(sandbox@);
    assert(environment[0] == ("OPENSHELL_LOG_LEVEL"@, log_level@));
    assert(environment[1] == ("OPENSHELL_GRPC_ENDPOINT"@, endpoint@));
    assert(environment[2] == ("OPENSHELL_SANDBOX_ID"@, sandbox.id@));
    assert(environment[3] == ("OPENSHELL_SANDBOX_NAME"@, sandbox.name@));
}

/// Every environment variable that a sandbox's spec sets is passed, whether or not
/// the spec has a template; where it has one, every variable of the template is
/// passed behind them.
pub proof fn law_run_options_pass_every_variable(
    driver: AppleContainerComputeDriver,
    sandbox: DriverSandbox,
    token: Option<&str>,
    log_level: &str,
    res: Vec<String>,
    k: int,
)
    requires
        call_ensures(
            AppleContainerComputeDriver::build_run_args,
            (&driver, &sandbox, token, log_level),
            res,
        ),
    ensures
        sandbox.spec matches Some(spec) ==> (0 <= k < spec.environment.entries().len()
            ==> option_at(
            res@,
            8 + limits(driver.config) + k,
            "-e"@,
            spec.environment.entries()[k].0 + "="@ + spec.environment.entries()[k].1@,
        )),
        sandbox.spec matches Some(spec) ==> (spec.template matches Some(template) ==> (0 <= k
            < template.environment.entries().len() ==> option_at(
            res@,
            8 + limits(driver.config) + spec.environment.entries().len() + k,
            "-e"@,
            template.environment.entries()[k].0 + "="@ + template.environment.entries()[k].1@,
        ))),
{
    lemma_parts(driver, sandbox, token, log_level, res);
    let own = supervisor_environment(driver.config, sandbox@, log_level@);
    let environment = own + requested_environment(sandbox@);
    assert(own.len() == 4);
    if let Some(spec) = sandbox.spec {
        let n = spec.environment.entries().len() as int;
        if 0 <= k < n {
            assert(environment[4 + k] == (
                spec.environment.entries()[k].0,
                spec.environment.entries()[k].1@,
            ));
        }
        if let Some(template) = spec.template {
            if 0 <= k < template.environment.entries().len() {
                assert(environment[4 + n + k] == (
                    template.environment.entries()[k].0,
                    template.environment.entries()[k].1@,
                ));
            }
        }
    }
}

/// The files that a container gets from the host are the supervisor binary, the
/// three TLS files and the sandbox's token, as far as there are any, each at its
/// place; and there is no option beyond them.
pub proof fn law_run_options_mount_what_there_is(
    driver: AppleContainerComputeDriver,
    sandbox: DriverSandbox,
    token: Option<&str>,
    log_level: &str,
    res: Vec<String>,
)
    requires
        call_ensures(
            AppleContainerComputeDriver::build_run_args,
            (&driver, &sandbox, token, log_level),
            res,
        ),
    ensures
        ({
            let config = driver.config;
            let supervisor = 8 + limits(config) + own_variables(sandbox) + template_variables(
                sandbox,
            );
            let ca = supervisor + one_if(config.supervisor_bin);
            let cert = ca + one_if(config.guest_tls_ca);
            let key = cert + one_if(config.guest_tls_cert);
            let jwt = key + one_if(config.guest_tls_key);
            &&& config.supervisor_bin matches Some(path) ==> option_at(
                res@,
                supervisor,
                "-v"@,
                path@ + ":"@ + "/openshell-sandbox"@,
            )
            &&& config.guest_tls_ca matches Some(path) ==> option_at(
                res@,
                ca,
                "-v"@,
                path@ + ":"@ + "/etc/openshell/tls/client/ca.crt"@,
            )
            &&& config.guest_tls_cert matches Some(path) ==> option_at(
                res@,
                cert,
                "-v"@,
                path@ + ":"@ + "/etc/openshell/tls/client/tls.crt"@,
            )
            &&& config.guest_tls_key matches Some(path) ==> option_at(
                res@,
                key,
                "-v"@,
                path@ + ":"@ + "/etc/openshell/tls/client/tls.key"@,
            )
            &&& token matches Some(path) ==> option_at(
                res@,
                jwt,
                "-v"@,
                path@ + ":"@ + "/etc/openshell/auth/sandbox.jwt"@,
            )
            &&& res@.len() == 2 * (jwt + one_if(token))
        }),
{
    lemma_parts(driver, sandbox, token, log_level, res);
    let config = driver.config;
    let mounted = mounts(config, text_of(token));
    let own = supervisor_environment(config, sandbox@, log_level@);
    let requested = requested_environment(sandbox@);
    assert(own.len() == 4);
    assert(requested.len() == own_variables(sandbox) + template_variables(sandbox));
    let ca = one_if(config.supervisor_bin);
    let cert = ca + one_if(config.guest_tls_ca);
    let key = cert + one_if(config.guest_tls_cert);
    let jwt = key + one_if(config.guest_tls_key);
    assert(mounted.len() == jwt + one_if(token));
    if let Some(path) = config.supervisor_bin {
        assert(mounted[0] == (path@, "/openshell-sandbox"@));
    }
    if let Some(path) = config.guest_tls_ca {
        assert(mounted[ca] == (path@, "/etc/openshell/tls/client/ca.crt"@));
    }
    if let Some(path) = config.guest_tls_cert {
        assert(mounted[cert] == (path@, "/etc/openshell/tls/client/tls.crt"@));
    }
    if let Some(path) = config.guest_tls_key {
        assert(mounted[key] == (path@, "/etc/openshell/tls/client/tls.key"@));
    }
    if let Some(path) = token {
        assert(mounted[jwt] == (path@, "/etc/openshell/auth/sandbox.jwt"@));
    }
}

/// A container runs the supervisor, which is told the endpoint and the sandbox's
/// id and name once more.
pub proof fn law_containers_run_the_supervisor(
    driver: AppleContainerComputeDriver,
    sandbox: DriverSandbox,
    endpoint: String,
    res: Vec<String>,
)
    requires
        call_ensures(
            AppleContainerComputeDriver::build_supervisor_command,
            (&driver, &sandbox),
            res,
        ),
        call_ensures(AppleContainerComputeDriver::effective_grpc_endpoint, (&driver,), endpoint),
    ensures
        res@.len() == 7,
        res@[0]@ == "/openshell-sandbox"@,
        res@[1]@ == "--grpc-endpoint"@,
        res@[2]@ == endpoint@,
        res@[3]@ == "--sandbox-id"@,
        res@[4]@ == sandbox.id@,
        res@[5]@ == "--sandbox-name"@,
        res@[6]@ == sandbox.name@,
{
    let all = texts(res@);
    assert(all.len() == res@.len());
    assert(all.len() == 7);
    assert forall|i: int| 0 <= i < 7 implies all[i] == #[trigger] res@[i]@ by {}
}

/// Whether `x` is the driver's error for an error of the tool. A container that is
/// there already is a sandbox that is. Anything else is a message that holds what
/// the tool's error says.
pub open spec fn is_driver_error_of(e: ContainerCliError, x: ComputeDriverError) -> bool {
    match e {
        ContainerCliError::AlreadyExists(_) => x is AlreadyExists,
        ContainerCliError::NotFound(m) => x matches ComputeDriverError::Message(t) && t@
            == "not found: "@ + m@,
        ContainerCliError::Exec(f) => x matches ComputeDriverError::Message(t) && t@
            == "container CLI execution failed: "@ + f.message@,
        ContainerCliError::NonZero { code, stderr } => x matches ComputeDriverError::Message(t)
            && exists|n: Seq<char>| #[trigger]
            is_signed_decimal(n, code as int) && t@ == "container CLI returned non-zero exit ("@ + n
                + "): "@ + stderr@,
        ContainerCliError::Parse(m) => x matches ComputeDriverError::Message(t) && t@
            == "failed to parse container CLI output: "@ + m@,
    }
}

/// The driver's error in contracts is the one that the tool's error calls for.
pub proof fn lemma_is_driver_error_of(e: ContainerCliError, x: ComputeDriverError)
    requires
        x@ == driver_error(e@),
    ensures
        is_driver_error_of(e, x),
{
    if let ContainerCliError::NonZero { code, stderr } = e {
        lemma_is_signed_decimal(code as int);
        assert(is_signed_decimal(signed_decimal(code as int), code as int));
    }
}

/// The tool's errors become the driver's.
pub proof fn law_tool_errors_become_driver_errors(e: ContainerCliError, res: ComputeDriverError)
    requires
        call_ensures(ComputeDriverError::from_cli, (e,), res),
    ensures
        is_driver_error_of(e, res),
{
    lemma_is_driver_error_of(e, res);
}

/// A driver comes up if and only if the tool could be verified, and then has the
/// configuration that it was given. Where the program is not there, the message
/// names it.
pub proof fn law_drivers_need_the_tool(
    config: AppleContainerComputeConfig,
    version: &str,
    verified: Result<String, ContainerCliError>,
    reason: String,
    res: Result<AppleContainerComputeDriver, ComputeDriverError>,
)
    requires
        call_ensures(AppleContainerComputeDriver::new, (config, version, verified), res),
        verified matches Err(e) ==> call_ensures(ContainerCliError::to_text, (&e,), reason),
    ensures
        verified is Ok <==> res is Ok,
        res matches Ok(driver) ==> driver.config == config && driver.cli.bin@
            == config.container_bin@ && driver.gateway_version@ == version@,
        verified matches Err(e) ==> (res matches Err(ComputeDriverError::Message(m)) && m@ == (
        if e matches ContainerCliError::Exec(f) && f.not_found {
            "Apple `container` CLI not found at '"@ + config.container_bin@
                + "'. Install it from https://github.com/apple/container/releases and ensure `container system start` has been run."@
        } else {
            "Failed to connect to Apple Container runtime: "@ + reason@
                + ". Ensure `container system start` has been run."@
        })),
{
}

/// A driver reports itself, the gateway's version and the configured image, and no
/// GPU.
pub proof fn law_capabilities_never_promise_a_gpu(
    driver: AppleContainerComputeDriver,
    res: GetCapabilitiesResponse,
)
    requires
        call_ensures(AppleContainerComputeDriver::capabilities, (&driver,), res),
    ensures
        res.driver_name@ == "apple-container"@,
        res.driver_version@ == driver.gateway_version@,
        res.default_image@ == driver.config.default_image@,
        !res.supports_gpu,
{
}

/// The supervisor image goes with the gateway's version.
pub proof fn law_supervisor_image_goes_with_the_version(version: &str, res: String)
    requires
        call_ensures(default_supervisor_image, (version,), res),
    ensures
        res@ == "ghcr.io/nvidia/openshell/supervisor:"@ + version@,
{
}

/// What a gateway does not configure has its default.
pub proof fn law_defaults(image: &str, version: &str, res: AppleContainerComputeConfig)
    requires
        call_ensures(AppleContainerComputeConfig::with_defaults, (image, version), res),
    ensures
        res.default_image@ == image@,
        res.image_pull_policy@.len() == 0,
        res.sandbox_namespace@ == "default"@,
        res.grpc_endpoint@.len() == 0,
        res.gateway_port == 0,
        res.host_gateway_ip@ == "192.168.64.1"@,
        res.supervisor_bin is None,
        res.supervisor_image@ == "ghcr.io/nvidia/openshell/supervisor:"@ + version@,
        res.guest_tls_ca is None,
        res.guest_tls_cert is None,
        res.guest_tls_key is None,
        res.sandbox_cpus is None,
        res.sandbox_memory is None,
        res.stop_timeout_secs == 10,
        res.container_bin@ == "container"@,
        res.log_level@.len() == 0,
{
}

} // verus!
