use openshell_apple_container::cli::ContainerCliError;
use openshell_apple_container::cli::ContainerConfiguration;
use openshell_apple_container::cli::ContainerEntry;
use openshell_apple_container::cli::ContainerStatus;
use openshell_apple_container::cli::ExecFailure;
use openshell_apple_container::compute::DriverSandbox;
use openshell_apple_container::compute::DriverSandboxSpec;
use openshell_apple_container::compute::DriverSandboxTemplate;
use openshell_apple_container::config::default_supervisor_image;
use openshell_apple_container::config::AppleContainerComputeConfig;
use openshell_apple_container::driver::container_name;
use openshell_apple_container::driver::AppleContainerComputeDriver;
use openshell_apple_container::driver::LABEL_MANAGED_BY;
use openshell_apple_container::driver::LABEL_MANAGED_BY_VALUE;
use openshell_apple_container::driver::LABEL_SANDBOX_ID;
use openshell_apple_container::driver::LABEL_SANDBOX_NAME;
use openshell_apple_container::driver::LABEL_SANDBOX_NAMESPACE;
use openshell_apple_container::error::ComputeDriverError;
use openshell_apple_container::observe::condition_from_state;
use openshell_apple_container::observe::driver_sandbox_from_entry;
use openshell_apple_container::observe::is_managed_entry;
use openshell_apple_container::string_map::StringMap;

fn config() -> AppleContainerComputeConfig {
    AppleContainerComputeConfig::with_defaults("ubuntu:latest", "1.2.3")
}

fn driver_with(config: AppleContainerComputeConfig) -> AppleContainerComputeDriver {
    AppleContainerComputeDriver::new(config, "1.2.3", Ok("[]".to_string())).unwrap()
}

fn spec() -> DriverSandboxSpec {
    DriverSandboxSpec {
        environment: StringMap::new(),
        template: None,
        gpu: false,
        sandbox_token: String::new(),
    }
}

fn template(image: &str) -> DriverSandboxTemplate {
    DriverSandboxTemplate { image: image.to_string(), environment: StringMap::new() }
}

fn sandbox(spec: Option<DriverSandboxSpec>) -> DriverSandbox {
    DriverSandbox {
        id: "sb-1".to_string(),
        name: "demo".to_string(),
        namespace: "default".to_string(),
        spec,
        status: None,
    }
}

fn entry(id: &str, labels: Vec<(&str, &str)>, state: Option<&str>) -> ContainerEntry {
    ContainerEntry {
        id: id.to_string(),
        configuration: ContainerConfiguration {
            labels: StringMap::from_entries(
                labels.iter().map(|(k, v)| (k.to_string(), v.to_string())).collect(),
            ),
            ..Default::default()
        },
        status: state.map(|s| ContainerStatus { state: s.to_string(), ..Default::default() }),
    }
}

fn managed(id: &str, name: &str) -> ContainerEntry {
    entry(
        &container_name(name),
        vec![
            (LABEL_MANAGED_BY, LABEL_MANAGED_BY_VALUE),
            (LABEL_SANDBOX_ID, id),
            (LABEL_SANDBOX_NAME, name),
        ],
        Some("running"),
    )
}

#[test]
fn container_name_prefix() {
    assert_eq!(container_name("my-sandbox"), "openshell-my-sandbox");
}

#[test]
fn managed_entry_detection() {
    let managed = ContainerEntry {
        id: "test".to_string(),
        configuration: ContainerConfiguration {
            labels: StringMap::from_entries(vec![(
                LABEL_MANAGED_BY.to_string(),
                LABEL_MANAGED_BY_VALUE.to_string(),
            )]),
            ..Default::default()
        },
        status: None,
    };
    assert!(is_managed_entry(&managed));

    let unmanaged = ContainerEntry {
        id: "other".to_string(),
        configuration: ContainerConfiguration::default(),
        status: None,
    };
    assert!(!is_managed_entry(&unmanaged));
}

#[test]
fn driver_sandbox_from_entry_extracts_labels() {
    let entry = ContainerEntry {
        id: "openshell-demo".to_string(),
        configuration: ContainerConfiguration {
            labels: StringMap::from_entries(vec![
                (LABEL_MANAGED_BY.to_string(), LABEL_MANAGED_BY_VALUE.to_string()),
                (LABEL_SANDBOX_ID.to_string(), "sb-123".to_string()),
                (LABEL_SANDBOX_NAME.to_string(), "demo".to_string()),
                (LABEL_SANDBOX_NAMESPACE.to_string(), "default".to_string()),
            ]),
            ..Default::default()
        },
        status: Some(ContainerStatus { state: "running".to_string(), ..Default::default() }),
    };

    let sandbox = driver_sandbox_from_entry(&entry).unwrap();
    assert_eq!(sandbox.id, "sb-123");
    assert_eq!(sandbox.name, "demo");
    assert_eq!(sandbox.namespace, "default");
    let cond = &sandbox.status.unwrap().conditions[0];
    assert_eq!(cond.reason, "DependenciesNotReady");
}

#[test]
fn condition_from_running() {
    let cond = condition_from_state("running");
    assert_eq!(cond.reason, "DependenciesNotReady");
    assert_eq!(cond.status, "False");
}

#[test]
fn condition_from_stopped() {
    let cond = condition_from_state("stopped");
    assert_eq!(cond.reason, "ContainerExited");
}

#[test]
fn condition_from_unknown() {
    let cond = condition_from_state("weird");
    assert_eq!(cond.reason, "Unknown");
}

#[test]
fn every_state_has_its_condition() {
    for (state, reason, message) in [
        ("RUNNING", "DependenciesNotReady", "Container is running, waiting for supervisor"),
        ("Created", "Starting", "Container state: Created"),
        ("starting", "Starting", "Container state: starting"),
        ("exited", "ContainerExited", "Container state: exited"),
        ("Dead", "ContainerExited", "Container state: Dead"),
        ("", "Unknown", "Container state: "),
        (" running", "Unknown", "Container state:  running"),
    ] {
        let cond = condition_from_state(state);
        assert_eq!(cond.type_, "Ready");
        assert_eq!(cond.status, "False");
        assert_eq!(cond.reason, reason);
        assert_eq!(cond.message, message);
        assert_eq!(cond.last_transition_time, "");
    }
}

#[test]
fn entries_that_are_no_sandboxes() {
    let by_others = vec![(LABEL_MANAGED_BY, "docker"), (LABEL_SANDBOX_ID, "a")];
    assert!(driver_sandbox_from_entry(&entry("x", by_others, None)).is_none());
    let no_name = vec![(LABEL_MANAGED_BY, LABEL_MANAGED_BY_VALUE), (LABEL_SANDBOX_ID, "a")];
    assert!(driver_sandbox_from_entry(&entry("x", no_name, None)).is_none());
    let no_id = vec![(LABEL_MANAGED_BY, LABEL_MANAGED_BY_VALUE), (LABEL_SANDBOX_NAME, "a")];
    assert!(driver_sandbox_from_entry(&entry("x", no_id, None)).is_none());
}

#[test]
fn a_container_without_status_is_unknown() {
    let mut entry = managed("sb-1", "demo");
    entry.status = None;
    let sandbox = driver_sandbox_from_entry(&entry).unwrap();
    assert_eq!(sandbox.namespace, "default");
    assert!(sandbox.spec.is_none());
    let status = sandbox.status.unwrap();
    assert_eq!(status.sandbox_name, "openshell-demo");
    assert_eq!(status.instance_id, "openshell-demo");
    assert!(!status.deleting);
    assert_eq!(status.conditions.len(), 1);
    assert_eq!(status.conditions[0].message, "Container state: unknown");
}

#[test]
fn sandboxes_are_listed_by_name_and_id() {
    let entries = vec![
        managed("2", "b"),
        entry("x", vec![], Some("running")),
        managed("9", "a"),
        managed("1", "b"),
        managed("3", "B"),
        managed("4", "ab"),
        managed("5", "\u{e9}"),
    ];
    let listed = AppleContainerComputeDriver::list_sandboxes(Ok(entries)).unwrap();
    let keys: Vec<(&str, &str)> =
        listed.iter().map(|s| (s.name.as_str(), s.id.as_str())).collect();
    assert_eq!(
        keys,
        [("B", "3"), ("a", "9"), ("ab", "4"), ("b", "1"), ("b", "2"), ("\u{e9}", "5")]
    );
}

#[test]
fn equal_sandboxes_keep_their_order_in_a_listing() {
    let mut first = managed("1", "a");
    first.id = "first".to_string();
    let mut second = managed("1", "a");
    second.id = "second".to_string();
    let listed =
        AppleContainerComputeDriver::list_sandboxes(Ok(vec![managed("1", "b"), first, second]))
            .unwrap();
    let instances: Vec<String> =
        listed.into_iter().map(|s| s.status.unwrap().instance_id).collect();
    assert_eq!(instances, ["first", "second", "openshell-b"]);
}

#[test]
fn a_failed_listing_fails() {
    let res = AppleContainerComputeDriver::list_sandboxes(Err(ContainerCliError::Parse(
        "x".to_string(),
    )));
    match res {
        Err(ComputeDriverError::Message(m)) => {
            assert_eq!(m, "failed to parse container CLI output: x")
        }
        other => panic!("{:?}", other),
    }
}

#[test]
fn get_sandbox_of_a_missing_container() {
    let missing = Err(ContainerCliError::NotFound("c".to_string()));
    assert!(AppleContainerComputeDriver::get_sandbox(missing).unwrap().is_none());
    let found = AppleContainerComputeDriver::get_sandbox(Ok(managed("sb-1", "demo"))).unwrap();
    assert_eq!(found.unwrap().id, "sb-1");
    let failed = Err(ContainerCliError::NonZero { code: 3, stderr: "x".to_string() });
    match AppleContainerComputeDriver::get_sandbox(failed) {
        Err(ComputeDriverError::Message(m)) => {
            assert_eq!(m, "container CLI returned non-zero exit (3): x")
        }
        other => panic!("{:?}", other),
    }
    let command = driver_with(config()).get_sandbox_command("demo");
    assert_eq!(command.args, ["inspect", "openshell-demo"]);
}

#[test]
fn tool_errors_become_driver_errors() {
    let missing = ComputeDriverError::from_cli(ContainerCliError::NotFound("c".to_string()));
    assert_eq!(missing.to_text(), "not found: c");
    let there = ComputeDriverError::from_cli(ContainerCliError::AlreadyExists("c".to_string()));
    assert!(matches!(there, ComputeDriverError::AlreadyExists));
    let parse = ComputeDriverError::from_cli(ContainerCliError::Parse("p".to_string()));
    assert_eq!(parse.to_text(), "failed to parse container CLI output: p");
}

#[test]
fn a_driver_needs_the_tool() {
    let missing = ExecFailure { not_found: true, message: "os error 2".to_string() };
    let res =
        AppleContainerComputeDriver::new(config(), "1", Err(ContainerCliError::Exec(missing)));
    match res {
        Err(ComputeDriverError::Message(m)) => assert_eq!(
            m,
            "Apple `container` CLI not found at 'container'. \
             Install it from https://github.com/apple/container/releases \
             and ensure `container system start` has been run."
        ),
        other => panic!("{:?}", other),
    }
    let denied = ExecFailure { not_found: false, message: "denied".to_string() };
    let res = AppleContainerComputeDriver::new(config(), "1", Err(ContainerCliError::Exec(denied)));
    match res {
        Err(ComputeDriverError::Message(m)) => assert_eq!(
            m,
            "Failed to connect to Apple Container runtime: container CLI execution failed: \
             denied. Ensure `container system start` has been run."
        ),
        other => panic!("{:?}", other),
    }
    assert_eq!(driver_with(config()).cli.bin, "container");
}

#[test]
fn defaults() {
    let c = config();
    assert_eq!(c.default_image, "ubuntu:latest");
    assert_eq!(c.image_pull_policy, "");
    assert_eq!(c.sandbox_namespace, "default");
    assert_eq!(c.grpc_endpoint, "");
    assert_eq!(c.gateway_port, 0);
    assert_eq!(c.host_gateway_ip, "192.168.64.1");
    assert_eq!(c.supervisor_bin, None);
    assert_eq!(c.supervisor_image, "ghcr.io/nvidia/openshell/supervisor:1.2.3");
    assert_eq!(c.guest_tls_ca, None);
    assert_eq!(c.guest_tls_cert, None);
    assert_eq!(c.guest_tls_key, None);
    assert_eq!(c.sandbox_cpus, None);
    assert_eq!(c.sandbox_memory, None);
    assert_eq!(c.stop_timeout_secs, 10);
    assert_eq!(c.container_bin, "container");
    assert_eq!(c.log_level, "");
    assert_eq!(default_supervisor_image("9"), "ghcr.io/nvidia/openshell/supervisor:9");
}

#[test]
fn capabilities_name_the_driver() {
    let caps = driver_with(config()).capabilities();
    assert_eq!(caps.driver_name, "apple-container");
    assert_eq!(caps.driver_version, "1.2.3");
    assert_eq!(caps.default_image, "ubuntu:latest");
    assert!(!caps.supports_gpu);
}

#[test]
fn gpu_sandboxes_are_refused() {
    let driver = driver_with(config());
    assert!(driver.validate_sandbox_create(&sandbox(None)).is_ok());
    assert!(driver.validate_sandbox_create(&sandbox(Some(spec()))).is_ok());
    let mut gpu = spec();
    gpu.gpu = true;
    match driver.validate_sandbox_create(&sandbox(Some(gpu))) {
        Err(ComputeDriverError::Precondition(m)) => assert_eq!(
            m,
            "Apple Container driver does not support GPU sandboxes. \
             GPU passthrough is not available through the macOS \
             Virtualization framework."
        ),
        other => panic!("{:?}", other),
    }
}

#[test]
fn the_template_names_the_image() {
    let driver = driver_with(config());
    assert_eq!(driver.resolve_image(&sandbox(None)), "ubuntu:latest");
    assert_eq!(driver.resolve_image(&sandbox(Some(spec()))), "ubuntu:latest");
    let mut named = spec();
    named.template = Some(template("alpine"));
    assert_eq!(driver.resolve_image(&sandbox(Some(named))), "alpine");
    let mut blank = spec();
    blank.template = Some(template(" \u{2003}\n"));
    assert_eq!(driver.resolve_image(&sandbox(Some(blank))), "ubuntu:latest");
    let mut padded = spec();
    padded.template = Some(template(" alpine "));
    assert_eq!(driver.resolve_image(&sandbox(Some(padded))), " alpine ");
}

#[test]
fn the_endpoint_is_configured_or_the_gateway() {
    let mut c = config();
    c.gateway_port = 8080;
    assert_eq!(driver_with(c.clone()).effective_grpc_endpoint(), "http://192.168.64.1:8080");
    c.guest_tls_ca = Some("/ca".to_string());
    c.guest_tls_cert = Some("/cert".to_string());
    assert!(!c.tls_enabled());
    c.guest_tls_key = Some("/key".to_string());
    assert!(c.tls_enabled());
    assert_eq!(driver_with(c.clone()).effective_grpc_endpoint(), "https://192.168.64.1:8080");
    c.host_gateway_ip = "10.0.0.1".to_string();
    c.gateway_port = 65535;
    assert_eq!(driver_with(c.clone()).effective_grpc_endpoint(), "https://10.0.0.1:65535");
    c.grpc_endpoint = "http://gw".to_string();
    assert_eq!(driver_with(c).effective_grpc_endpoint(), "http://gw");
}

#[test]
fn run_arguments_of_a_plain_sandbox() {
    let driver = driver_with(config());
    assert_eq!(
        driver.build_run_args(&sandbox(None), None, "info"),
        [
            "-l",
            "openshell.ai/managed-by=openshell",
            "-l",
            "openshell.ai/sandbox-id=sb-1",
            "-l",
            "openshell.ai/sandbox-name=demo",
            "-l",
            "openshell.ai/sandbox-namespace=default",
            "-e",
            "OPENSHELL_LOG_LEVEL=info",
            "-e",
            "OPENSHELL_GRPC_ENDPOINT=http://192.168.64.1:0",
            "-e",
            "OPENSHELL_SANDBOX_ID=sb-1",
            "-e",
            "OPENSHELL_SANDBOX_NAME=demo",
        ]
    );
}

#[test]
fn run_arguments_of_a_full_sandbox() {
    let mut c = config();
    c.sandbox_cpus = Some(4);
    c.sandbox_memory = Some("2G".to_string());
    c.supervisor_bin = Some("/opt/sup".to_string());
    c.guest_tls_ca = Some("/ca".to_string());
    c.guest_tls_cert = Some("/cert".to_string());
    c.guest_tls_key = Some("/key".to_string());
    let mut s = spec();
    s.environment = StringMap::from_entries(vec![
        ("A".to_string(), "1".to_string()),
        ("B".to_string(), "x=y".to_string()),
    ]);
    let mut t = template("alpine");
    t.environment = StringMap::from_entries(vec![("C".to_string(), "3".to_string())]);
    s.template = Some(t);
    let args = driver_with(c).build_run_args(&sandbox(Some(s)), Some("/tok"), "debug");
    assert_eq!(
        args[8..],
        [
            "--cpus",
            "4",
            "--memory",
            "2G",
            "-e",
            "OPENSHELL_LOG_LEVEL=debug",
            "-e",
            "OPENSHELL_GRPC_ENDPOINT=https://192.168.64.1:0",
            "-e",
            "OPENSHELL_SANDBOX_ID=sb-1",
            "-e",
            "OPENSHELL_SANDBOX_NAME=demo",
            "-e",
            "A=1",
            "-e",
            "B=x=y",
            "-e",
            "C=3",
            "-v",
            "/opt/sup:/openshell-sandbox",
            "-v",
            "/ca:/etc/openshell/tls/client/ca.crt",
            "-v",
            "/cert:/etc/openshell/tls/client/tls.crt",
            "-v",
            "/key:/etc/openshell/tls/client/tls.key",
            "-v",
            "/tok:/etc/openshell/auth/sandbox.jwt",
        ]
    );
}

#[test]
fn the_container_runs_the_supervisor() {
    let mut c = config();
    c.grpc_endpoint = "http://gw".to_string();
    assert_eq!(
        driver_with(c).build_supervisor_command(&sandbox(None)),
        [
            "/openshell-sandbox",
            "--grpc-endpoint",
            "http://gw",
            "--sandbox-id",
            "sb-1",
            "--sandbox-name",
            "demo",
        ]
    );
}

#[test]
fn labels_are_read_back() {
    let mut c = config();
    c.sandbox_namespace = "team=a".to_string();
    let args = driver_with(c).build_run_args(&sandbox(None), None, "");
    let labels: Vec<(&str, &str)> =
        args[..8].chunks(2).map(|pair| pair[1].split_once('=').unwrap()).collect();
    let read = driver_sandbox_from_entry(&entry("c", labels, None)).unwrap();
    assert_eq!(read.id, "sb-1");
    assert_eq!(read.name, "demo");
    assert_eq!(read.namespace, "team=a");
}
