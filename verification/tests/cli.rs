use openshell_apple_container::cli::decoded_entries;
use openshell_apple_container::cli::first_entry;
use openshell_apple_container::cli::interpret_process;
use openshell_apple_container::cli::parse_container_entries;
use openshell_apple_container::cli::CliCommand;
use openshell_apple_container::cli::ContainerCli;
use openshell_apple_container::cli::ContainerCliError;
use openshell_apple_container::cli::ContainerConfiguration;
use openshell_apple_container::cli::ContainerEntry;
use openshell_apple_container::cli::ContainerImage;
use openshell_apple_container::cli::ContainerNetwork;
use openshell_apple_container::cli::ContainerResources;
use openshell_apple_container::cli::ContainerStatus;
use openshell_apple_container::cli::ExecFailure;
use openshell_apple_container::cli::ProcessOutput;
use openshell_apple_container::cli::PublishedPort;
use openshell_apple_container::cli::PublishedSocket;
use openshell_apple_container::string_map::StringMap;
use serde_json::Value;

fn cli() -> ContainerCli {
    ContainerCli::new("container")
}

fn args(command: &CliCommand) -> Vec<&str> {
    command.args.iter().map(|a| a.as_str()).collect()
}

fn text(value: &Value) -> Option<String> {
    value.as_str().map(|s| s.to_string())
}

fn decode_entry(value: &Value) -> Result<ContainerEntry, String> {
    let id = text(&value["id"]).ok_or("missing field `id`".to_string())?;
    let configuration = &value["configuration"];
    let mut labels = StringMap::new();
    if let Some(map) = configuration["labels"].as_object() {
        for (key, label) in map {
            labels.insert(key.clone(), text(label).ok_or("expected a string".to_string())?);
        }
    }
    let resources = configuration["resources"].as_object().map(|r| ContainerResources {
        cpus: r["cpus"].as_u64().map(|n| n as u32),
        memory_in_bytes: r["memoryInBytes"].as_u64(),
    });
    let image = text(&configuration["image"]["reference"])
        .map(|reference| ContainerImage { reference });
    let status = text(&value["status"]["state"])
        .map(|state| ContainerStatus { state, ..Default::default() });
    Ok(ContainerEntry {
        id,
        configuration: ContainerConfiguration { labels, image, resources, ..Default::default() },
        status,
    })
}

fn decode(payload: &str) -> Result<Vec<ContainerEntry>, String> {
    let value: Value = serde_json::from_str(payload).map_err(|e| e.to_string())?;
    let list = value.as_array().ok_or("expected a sequence".to_string())?;
    list.iter().map(decode_entry).collect()
}

fn no_decoder(_: &str) -> Result<Vec<ContainerEntry>, String> {
    panic!("nothing to decode")
}

#[test]
fn container_cli_new() {
    let cli = ContainerCli::new("/usr/local/bin/container");
    assert_eq!(cli.bin, "/usr/local/bin/container");
}

#[test]
fn parse_empty_list() {
    assert!(parse_container_entries("", no_decoder).unwrap().is_empty());
    assert!(parse_container_entries("[]", no_decoder).unwrap().is_empty());
    assert!(parse_container_entries("null", no_decoder).unwrap().is_empty());
}

#[test]
fn parse_real_list_output() {
    let json = r#"[{
            "id": "test-sandbox",
            "configuration": {
                "labels": {
                    "openshell.ai/managed-by": "openshell",
                    "openshell.ai/sandbox-id": "sb-123"
                },
                "image": { "reference": "docker.io/library/alpine:latest" },
                "publishedPorts": [],
                "publishedSockets": []
            },
            "status": {
                "state": "running",
                "networks": [{
                    "ipv4Address": "192.168.64.3/24",
                    "ipv4Gateway": "192.168.64.1"
                }]
            }
        }]"#;

    let entries = parse_container_entries(json, decode).unwrap();
    assert_eq!(entries.len(), 1);
    assert_eq!(entries[0].id, "test-sandbox");
    assert_eq!(
        entries[0].configuration.labels.get("openshell.ai/sandbox-id"),
        Some(&"sb-123".to_string())
    );
    assert_eq!(entries[0].status.as_ref().unwrap().state, "running");
}

#[test]
fn parse_inspect_with_resources() {
    let json = r#"[{
            "id": "my-container",
            "configuration": {
                "labels": {},
                "resources": { "cpus": 4, "memoryInBytes": 1073741824 },
                "publishedPorts": [],
                "publishedSockets": []
            },
            "status": { "state": "running", "networks": [] }
        }]"#;

    let entries = parse_container_entries(json, decode).unwrap();
    let res = entries[0].configuration.resources.as_ref().unwrap();
    assert_eq!(res.cpus, Some(4));
    assert_eq!(res.memory_in_bytes, Some(1_073_741_824));
}

#[test]
fn white_space_around_an_empty_list_does_not_matter() {
    assert!(parse_container_entries(" \n\t", no_decoder).unwrap().is_empty());
    assert!(parse_container_entries("\u{2003}[]\u{a0}\n", no_decoder).unwrap().is_empty());
    assert!(parse_container_entries("\r\nnull\n", no_decoder).unwrap().is_empty());
}

#[test]
fn the_decoder_sees_the_trimmed_output() {
    let entries = parse_container_entries("  [x]\n", |payload: &str| {
        assert_eq!(payload, "[x]");
        Ok(Vec::new())
    });
    assert!(entries.unwrap().is_empty());
}

#[test]
fn unreadable_output_is_quoted() {
    let reject = |_: &str| Err("bad".to_string());
    match parse_container_entries(" oops ", reject) {
        Err(ContainerCliError::Parse(m)) => assert_eq!(m, "bad (input starts with: oops)"),
        other => panic!("{:?}", other),
    }
    let long = "x".repeat(500);
    match parse_container_entries(&long, reject) {
        Err(ContainerCliError::Parse(m)) => {
            assert_eq!(m, format!("bad (input starts with: {})", "x".repeat(200)))
        }
        other => panic!("{:?}", other),
    }
    let accents = "\u{e9}".repeat(150);
    match parse_container_entries(&accents, reject) {
        Err(ContainerCliError::Parse(m)) => {
            assert_eq!(m, format!("bad (input starts with: {})", "\u{e9}".repeat(100)))
        }
        other => panic!("{:?}", other),
    }
}

#[test]
fn command_lines() {
    let cli = cli();
    assert_eq!(args(&cli.verify()), ["list", "--format", "json"]);
    assert_eq!(args(&cli.list_all()), ["list", "--all", "--format", "json"]);
    assert_eq!(args(&cli.inspect("c1")), ["inspect", "c1"]);
    assert_eq!(args(&cli.stop("c1", 10)), ["stop", "--time", "10", "c1"]);
    assert_eq!(args(&cli.stop("c1", 4_294_967_295)), ["stop", "--time", "4294967295", "c1"]);
    assert_eq!(args(&cli.stop("c1", 0)), ["stop", "--time", "0", "c1"]);
    assert_eq!(args(&cli.rm_stop("c1")), ["stop", "--time", "5", "c1"]);
    assert_eq!(args(&cli.rm("c1")), ["rm", "c1"]);
    assert_eq!(args(&cli.pull("alpine")), ["image", "pull", "alpine"]);
    assert_eq!(args(&cli.image_exists("alpine")), ["image", "inspect", "alpine"]);
    let options = vec!["-l".to_string(), "a=b".to_string()];
    let command = vec!["/bin/sh".to_string()];
    assert_eq!(
        args(&cli.run_detached("alpine", "c1", &options, &command)),
        ["run", "-d", "--name", "c1", "-l", "a=b", "alpine", "/bin/sh"]
    );
    assert_eq!(cli.verify().bin, "container");
}

#[test]
fn a_successful_process_gives_its_output() {
    let res = interpret_process(true, Some(0), " out \n".to_string(), "already exists".to_string());
    assert_eq!(res.unwrap(), " out \n");
}

#[test]
fn a_failed_process_is_told_by_its_complaint() {
    for complaint in ["  name already exists\n", "name already in use "] {
        match interpret_process(false, Some(1), String::new(), complaint.to_string()) {
            Err(ContainerCliError::AlreadyExists(m)) => assert_eq!(m, complaint.trim()),
            other => panic!("{:?}", other),
        }
    }
    match interpret_process(false, Some(64), "out".to_string(), " usage\n".to_string()) {
        Err(ContainerCliError::NonZero { code, stderr }) => {
            assert_eq!((code, stderr.as_str()), (64, "usage"))
        }
        other => panic!("{:?}", other),
    }
    match interpret_process(false, None, String::new(), String::new()) {
        Err(ContainerCliError::NonZero { code, stderr }) => {
            assert_eq!((code, stderr.as_str()), (-1, ""))
        }
        other => panic!("{:?}", other),
    }
}

#[test]
fn process_output_is_read_as_lossy_utf8() {
    let output = ProcessOutput {
        success: true,
        code: Some(0),
        stdout: vec![b'h', 0xc3, 0xa9, 0xff, b'!'],
        stderr: Vec::new(),
    };
    assert_eq!(ContainerCli::run_args_result(Ok(output)).unwrap(), "h\u{e9}\u{fffd}!");
    let failed = ProcessOutput {
        success: false,
        code: Some(2),
        stdout: Vec::new(),
        stderr: b"boom\n".to_vec(),
    };
    match ContainerCli::run_args_result(Ok(failed)) {
        Err(ContainerCliError::NonZero { code, stderr }) => {
            assert_eq!((code, stderr.as_str()), (2, "boom"))
        }
        other => panic!("{:?}", other),
    }
    let missing = ExecFailure { not_found: true, message: "no such file".to_string() };
    match ContainerCli::run_args_result(Err(missing)) {
        Err(ContainerCliError::Exec(f)) => {
            assert!(f.not_found);
            assert_eq!(f.message, "no such file");
        }
        other => panic!("{:?}", other),
    }
}

#[test]
fn run_detached_prints_an_id() {
    assert_eq!(ContainerCli::run_detached_result(Ok(" c1\n".to_string())).unwrap(), "c1");
    match ContainerCli::run_detached_result(Ok(" \n".to_string())) {
        Err(ContainerCliError::Parse(m)) => assert_eq!(m, "container run returned empty ID"),
        other => panic!("{:?}", other),
    }
    match ContainerCli::run_detached_result(Err(ContainerCliError::Parse("x".to_string()))) {
        Err(ContainerCliError::Parse(m)) => assert_eq!(m, "x"),
        other => panic!("{:?}", other),
    }
}

fn non_zero(stderr: &str) -> Result<String, ContainerCliError> {
    Err(ContainerCliError::NonZero { code: 1, stderr: stderr.to_string() })
}

#[test]
fn a_missing_container_is_not_found() {
    for complaint in ["container not found: c1", "no such container"] {
        match ContainerCli::stop_result("c1", non_zero(complaint)) {
            Err(ContainerCliError::NotFound(m)) => assert_eq!(m, "c1"),
            other => panic!("{:?}", other),
        }
        match ContainerCli::rm_result("c1", non_zero(complaint)) {
            Err(ContainerCliError::NotFound(m)) => assert_eq!(m, "c1"),
            other => panic!("{:?}", other),
        }
        match ContainerCli::inspect_result("c1", non_zero(complaint), no_decoder) {
            Err(ContainerCliError::NotFound(m)) => assert_eq!(m, "c1"),
            other => panic!("{:?}", other),
        }
    }
    match ContainerCli::rm_result("c1", non_zero("busy")) {
        Err(ContainerCliError::NonZero { code, stderr }) => {
            assert_eq!((code, stderr.as_str()), (1, "busy"))
        }
        other => panic!("{:?}", other),
    }
    assert!(ContainerCli::stop_result("c1", Ok(String::new())).is_ok());
}

#[test]
fn inspect_takes_the_first_entry() {
    let out = r#"[{"id": "a"}, {"id": "b"}]"#.to_string();
    assert_eq!(ContainerCli::inspect_result("a", Ok(out.clone()), decode).unwrap().id, "a");
    assert_eq!(ContainerCli::list_all_result(Ok(out), decode).unwrap().len(), 2);
    match ContainerCli::inspect_result("a", Ok("[]".to_string()), decode) {
        Err(ContainerCliError::NotFound(m)) => assert_eq!(m, "a"),
        other => panic!("{:?}", other),
    }
    match ContainerCli::inspect_result("a", Ok("{}".to_string()), decode) {
        Err(ContainerCliError::Parse(m)) => {
            assert_eq!(m, "expected a sequence (input starts with: {})")
        }
        other => panic!("{:?}", other),
    }
    assert!(ContainerCli::list_all_result(non_zero("busy"), no_decoder).is_err());
}

#[test]
fn error_texts() {
    let exec = ContainerCliError::from(ExecFailure { not_found: false, message: "io".to_string() });
    assert_eq!(exec.to_text(), "container CLI execution failed: io");
    let failed = ContainerCliError::NonZero { code: -2147483648, stderr: "e".to_string() };
    assert_eq!(failed.to_text(), "container CLI returned non-zero exit (-2147483648): e");
    let failed = ContainerCliError::NonZero { code: 127, stderr: "e".to_string() };
    assert_eq!(failed.to_text(), "container CLI returned non-zero exit (127): e");
    let parse = ContainerCliError::Parse("p".to_string());
    assert_eq!(parse.to_text(), "failed to parse container CLI output: p");
    let missing = ContainerCliError::NotFound("c".to_string());
    assert_eq!(missing.to_text(), "container not found: c");
    let there = ContainerCliError::AlreadyExists("c".to_string());
    assert_eq!(there.to_text(), "container already exists: c");
}

#[test]
fn schema_defaults_are_empty() {
    assert_eq!(ContainerConfiguration::default().labels.len(), 0);
    assert_eq!(ContainerImage::default().reference, "");
    assert_eq!(ContainerResources::default().cpus, None);
    assert_eq!(PublishedPort::default().host_port, None);
    assert_eq!(PublishedSocket::default().host_path, None);
    assert_eq!(ContainerStatus::default().state, "");
    assert_eq!(ContainerNetwork::default().network, "");
}

#[test]
fn a_decoder_answer_is_kept_or_explained() {
    let entries = decode(r#"[{"id": "a"}, {"id": "b"}]"#).unwrap();
    let kept = decoded_entries("whatever", Ok(entries)).unwrap();
    assert_eq!(kept.iter().map(|e| e.id.as_str()).collect::<Vec<&str>>(), ["a", "b"]);
    assert_eq!(first_entry("x", Ok(kept)).unwrap().id, "a");
    match decoded_entries("[1", Err("EOF".to_string())) {
        Err(ContainerCliError::Parse(m)) => assert_eq!(m, "EOF (input starts with: [1)"),
        other => panic!("{:?}", other),
    }
    match first_entry("x", Ok(Vec::new())) {
        Err(ContainerCliError::NotFound(m)) => assert_eq!(m, "x"),
        other => panic!("{:?}", other),
    }
    match first_entry("x", Err(ContainerCliError::Parse("p".to_string()))) {
        Err(ContainerCliError::Parse(m)) => assert_eq!(m, "p"),
        other => panic!("{:?}", other),
    }
}
