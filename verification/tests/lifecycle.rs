use openshell_apple_container::cli::ContainerCliError;
use openshell_apple_container::compute::DriverSandbox;
use openshell_apple_container::compute::DriverSandboxSpec;
use openshell_apple_container::config::AppleContainerComputeConfig;
use openshell_apple_container::creation::cleanup_sandbox_token_file;
use openshell_apple_container::creation::sandbox_token_host_path;
use openshell_apple_container::creation::token_clean_up_warns;
use openshell_apple_container::creation::Answer;
use openshell_apple_container::creation::CreateAction;
use openshell_apple_container::creation::TokenCleanUp;
use openshell_apple_container::creation::TokenPath;
use openshell_apple_container::deletion::DeleteAction;
use openshell_apple_container::driver::AppleContainerComputeDriver;
use openshell_apple_container::error::ComputeDriverError;
use openshell_apple_container::string_map::StringMap;

fn config(policy: &str) -> AppleContainerComputeConfig {
    let mut config = AppleContainerComputeConfig::with_defaults("img", "1");
    config.image_pull_policy = policy.to_string();
    config
}

fn driver(policy: &str) -> AppleContainerComputeDriver {
    AppleContainerComputeDriver::new(config(policy), "1", Ok(String::new())).unwrap()
}

fn sandbox(token: &str) -> DriverSandbox {
    DriverSandbox {
        id: "sb-1".to_string(),
        name: "demo".to_string(),
        namespace: "default".to_string(),
        spec: Some(DriverSandboxSpec {
            environment: StringMap::new(),
            template: None,
            gpu: false,
            sandbox_token: token.to_string(),
        }),
        status: None,
    }
}

fn path(parent: Option<&str>) -> TokenPath {
    TokenPath { path: "/state/tok".to_string(), parent: parent.map(|p| p.to_string()) }
}

fn done(out: &str) -> Answer {
    Answer::Command(Ok(out.to_string()))
}

fn failed(stderr: &str) -> Answer {
    Answer::Command(Err(ContainerCliError::NonZero { code: 1, stderr: stderr.to_string() }))
}

fn kept() -> Answer {
    Answer::File(Ok(()))
}

fn lost() -> Answer {
    Answer::File(Err("denied".to_string()))
}

fn resolved() -> Answer {
    Answer::TokenPath(Ok(path(Some("/state"))))
}

/// What a creation asks for, one line each, when it is answered as given.
fn creation(policy: &str, sandbox: &DriverSandbox, answers: Vec<Answer>) -> Vec<String> {
    let driver = driver(policy);
    let (mut step, mut action) = driver.create_sandbox(sandbox, "info");
    let mut asked = vec![told(&action)];
    for answer in answers {
        (step, action) = driver.create_sandbox_next(sandbox, "info", step, answer);
        asked.push(told(&action));
    }
    asked
}

fn told(action: &CreateAction) -> String {
    match action {
        CreateAction::Command(c) if c.args[0] == "run" => {
            let token = c.args.iter().find(|a| a.ends_with("/etc/openshell/auth/sandbox.jwt"));
            match token {
                Some(mount) => format!("run {} with {}", c.args[3], mount),
                None => format!("run {}", c.args[3]),
            }
        }
        CreateAction::Command(c) => c.args.join(" "),
        CreateAction::ResolveTokenPath { subdirectory, sandbox_id } => {
            format!("resolve {subdirectory} {sandbox_id}")
        }
        CreateAction::CreateTokenDir => "create dir".to_string(),
        CreateAction::WriteTokenFile { contents } => format!("write {contents:?}"),
        CreateAction::RestrictTokenFile => "restrict".to_string(),
        CreateAction::RemoveTokenFile { sandbox_id } => format!("remove {sandbox_id}"),
        CreateAction::Finish(Ok(())) => "created".to_string(),
        CreateAction::Finish(Err(e)) => outcome(e),
    }
}

fn outcome(e: &ComputeDriverError) -> String {
    match e {
        ComputeDriverError::Precondition(m) => format!("precondition: {m}"),
        ComputeDriverError::Message(m) => format!("message: {m}"),
        other => other.to_text(),
    }
}

const RUN_WITH_TOKEN: &str =
    "run openshell-demo with /state/tok:/etc/openshell/auth/sandbox.jwt";
const RESOLVE: &str = "resolve apple-container-sandbox-tokens sb-1";

#[test]
fn a_sandbox_with_a_token_is_created() {
    assert_eq!(
        creation(
            "",
            &sandbox("jwt"),
            vec![
                failed("no such image"),
                done(""),
                resolved(),
                kept(),
                kept(),
                kept(),
                done("openshell-demo\n"),
            ],
        ),
        [
            "image inspect img",
            "image pull img",
            RESOLVE,
            "create dir",
            "write \"jwt\\n\"",
            "restrict",
            RUN_WITH_TOKEN,
            "created",
        ]
    );
}

#[test]
fn a_sandbox_without_a_token_is_created() {
    let asked = ["image inspect img", "run openshell-demo", "created"];
    assert_eq!(creation("never", &sandbox(""), vec![done("[]"), done("id")]), asked);
    let mut bare = sandbox("");
    bare.spec = None;
    assert_eq!(creation("", &bare, vec![done("[]"), done("id")]), asked);
}

#[test]
fn the_full_run_command() {
    let driver = driver("always");
    let sandbox = sandbox("");
    let (step, action) = driver.create_sandbox(&sandbox, "info");
    assert_eq!(told(&action), "image pull img");
    let (_, action) = driver.create_sandbox_next(&sandbox, "info", step, done(""));
    let expected = driver.cli.run_detached(
        "img",
        "openshell-demo",
        &driver.build_run_args(&sandbox, None, "info"),
        &driver.build_supervisor_command(&sandbox),
    );
    match action {
        CreateAction::Command(command) => {
            assert_eq!(command.bin, "container");
            assert_eq!(command.args, expected.args);
        }
        other => panic!("{:?}", other),
    }
}

#[test]
fn a_token_without_a_directory_is_written_at_once() {
    assert_eq!(
        creation(
            "always",
            &sandbox("jwt"),
            vec![done(""), Answer::TokenPath(Ok(path(None))), kept(), kept()],
        ),
        ["image pull img", RESOLVE, "write \"jwt\\n\"", "restrict", RUN_WITH_TOKEN]
    );
}

#[test]
fn incomplete_sandboxes_are_refused() {
    let mut nameless = sandbox("");
    nameless.name = String::new();
    nameless.id = String::new();
    assert_eq!(creation("", &nameless, vec![]), ["precondition: sandbox name is required"]);
    let mut anonymous = sandbox("");
    anonymous.id = String::new();
    assert_eq!(creation("", &anonymous, vec![]), ["precondition: sandbox id is required"]);
    let mut c = config("");
    c.default_image = String::new();
    let driver = AppleContainerComputeDriver::new(c, "1", Ok(String::new())).unwrap();
    let (_, action) = driver.create_sandbox(&sandbox(""), "info");
    assert_eq!(
        told(&action),
        "precondition: no sandbox image configured: set default_image in \
         [openshell.drivers.apple-container] or provide an image \
         in the sandbox template"
    );
}

#[test]
fn pull_policies_decide_about_missing_images() {
    assert_eq!(
        creation("Never", &sandbox(""), vec![failed("gone")])[1],
        "precondition: image 'img' not present locally and image_pull_policy=Never"
    );
    assert_eq!(
        creation(" Often ", &sandbox(""), vec![]),
        ["precondition: unsupported image_pull_policy 'often'; \
          expected Always, IfNotPresent, or Never"]
    );
    assert_eq!(
        creation("always", &sandbox(""), vec![failed("offline")]),
        ["image pull img", "message: container CLI returned non-zero exit (1): offline"]
    );
}

#[test]
fn token_file_failures_end_a_creation() {
    let policy = "always";
    let s = sandbox("jwt");
    let unresolved = Answer::TokenPath(Err("no home".to_string()));
    assert_eq!(
        creation(policy, &s, vec![done(""), unresolved])[2],
        "message: resolve state dir failed: no home"
    );
    assert_eq!(
        creation(policy, &s, vec![done(""), resolved(), lost()])[3],
        "message: create sandbox token directory /state failed: denied"
    );
    assert_eq!(
        creation(policy, &s, vec![done(""), resolved(), kept(), lost()])[4],
        "message: write sandbox token file /state/tok failed: denied"
    );
    assert_eq!(
        creation(policy, &s, vec![done(""), resolved(), kept(), kept(), lost()])[5],
        "message: restrict sandbox token file /state/tok failed: denied"
    );
}

#[test]
fn a_failed_run_is_cleaned_up() {
    let there = || {
        Answer::Command(Err(ContainerCliError::AlreadyExists("name in use".to_string())))
    };
    assert_eq!(
        creation("always", &sandbox(""), vec![done(""), there(), lost()])[2..],
        ["remove sb-1", "sandbox already exists"]
    );
    assert_eq!(
        creation("always", &sandbox(""), vec![done(""), done(" \n"), kept()])[2..],
        [
            "remove sb-1",
            "message: failed to parse container CLI output: container run returned empty ID",
        ]
    );
    assert_eq!(
        creation("always", &sandbox(""), vec![done(""), failed("boom"), kept()])[2..],
        ["remove sb-1", "message: container CLI returned non-zero exit (1): boom"]
    );
}

fn deletion(id: &str, answers: Vec<Answer>) -> Vec<String> {
    let driver = driver("");
    let (mut step, mut action) = driver.delete_sandbox(id, "demo");
    let mut asked = vec![deleted(&action)];
    for answer in answers {
        (step, action) = driver.delete_sandbox_next(id, "demo", step, answer);
        asked.push(deleted(&action));
    }
    asked
}

fn deleted(action: &DeleteAction) -> String {
    match action {
        DeleteAction::Command(c) => c.args.join(" "),
        DeleteAction::RemoveTokenFile { sandbox_id } => format!("remove {sandbox_id}"),
        DeleteAction::Finish(Ok(existed)) => existed.to_string(),
        DeleteAction::Finish(Err(e)) => outcome(e),
    }
}

#[test]
fn a_sandbox_is_stopped_and_removed() {
    assert_eq!(
        deletion("sb-1", vec![done(""), done(""), kept()]),
        ["stop --time 5 openshell-demo", "rm openshell-demo", "remove sb-1", "true"]
    );
    assert_eq!(
        deletion("sb-1", vec![failed("not running"), done(""), lost()]),
        ["stop --time 5 openshell-demo", "rm openshell-demo", "remove sb-1", "true"]
    );
}

#[test]
fn a_missing_sandbox_is_no_failure() {
    assert_eq!(
        deletion("sb-1", vec![failed("not found"), failed("no such container"), kept()])[2..],
        ["remove sb-1", "false"]
    );
}

#[test]
fn a_failed_removal_is_reported() {
    assert_eq!(
        deletion("sb-1", vec![done(""), failed("busy")])[2],
        "message: container CLI returned non-zero exit (1): busy"
    );
    assert_eq!(deletion("", vec![]), ["precondition: sandbox id is required"]);
}

#[test]
fn a_sandbox_is_stopped() {
    let mut c = config("");
    c.stop_timeout_secs = 30;
    let driver = AppleContainerComputeDriver::new(c, "1", Ok(String::new())).unwrap();
    assert_eq!(driver.stop_sandbox("demo").args, ["stop", "--time", "30", "openshell-demo"]);
    assert!(AppleContainerComputeDriver::stop_sandbox_result("demo", Ok(String::new())).is_ok());
    let gone = Err(ContainerCliError::NonZero { code: 1, stderr: "not found".to_string() });
    match AppleContainerComputeDriver::stop_sandbox_result("demo", gone) {
        Err(e) => assert_eq!(outcome(&e), "message: not found: openshell-demo"),
        Ok(()) => panic!("stopped"),
    }
}

#[test]
fn token_paths_are_resolved() {
    assert_eq!(sandbox_token_host_path(Ok(path(None))).unwrap().path, "/state/tok");
    match sandbox_token_host_path(Err("x".to_string())) {
        Err(e) => assert_eq!(outcome(&e), "message: resolve state dir failed: x"),
        Ok(p) => panic!("{:?}", p),
    }
}

#[test]
fn token_files_are_cleaned_up_in_order() {
    let both = cleanup_sandbox_token_file(&Ok(path(Some("/state"))));
    assert!(matches!(both[..], [TokenCleanUp::RemoveFile, TokenCleanUp::RemoveDir]));
    let file = cleanup_sandbox_token_file(&Ok(path(None)));
    assert!(matches!(file[..], [TokenCleanUp::RemoveFile]));
    assert!(cleanup_sandbox_token_file(&Err("x".to_string())).is_empty());
    assert!(token_clean_up_warns(&TokenCleanUp::RemoveFile, false));
    assert!(!token_clean_up_warns(&TokenCleanUp::RemoveFile, true));
    assert!(!token_clean_up_warns(&TokenCleanUp::RemoveDir, false));
}

#[test]
fn the_token_mounted_is_the_one_written() {
    let elsewhere = TokenPath { path: "/other/jwt".to_string(), parent: None };
    let asked = creation(
        "always",
        &sandbox("secret"),
        vec![done(""), Answer::TokenPath(Ok(elsewhere)), kept(), kept()],
    );
    assert_eq!(
        asked[2..],
        [
            "write \"secret\\n\"",
            "restrict",
            "run openshell-demo with /other/jwt:/etc/openshell/auth/sandbox.jwt",
        ]
    );
}
