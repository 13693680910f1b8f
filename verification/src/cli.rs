//! Commands to Apple's `container` command line tool, and what to make of
//! their output.
//!
//! The tool's JSON schema:
//! - `id` is the user-assigned container name (not a hash)
//! - labels live under `configuration.labels`
//! - the state is at `status.state`
//! - both `list` and `inspect` return the same full schema
use crate::string_map::StringMap;
use crate::text::contains_text;
use crate::text::decimal;
use crate::text::decimal_text;
use crate::text::from_utf8_lossy;
use crate::text::lossy_utf8;
use crate::text::push_text;
use crate::text::push_texts;
use crate::text::signed_decimal;
use crate::text::signed_decimal_text;
use crate::text::text_contains;
use crate::text::text_eq;
use crate::text::texts;
use crate::text::trimmed;
use vstd::prelude::*;
use vstd::std_specs::convert::FromSpecImpl;
use vstd::utf8::decode_utf8;
use vstd::utf8::encode_utf8;
use vstd::utf8::encode_utf8_decode_utf8;
use vstd::utf8::is_char_boundary;

verus! {

/// Why the tool could not be started or its output not be read.
#[derive(Debug, Clone)]
pub struct ExecFailure {
    /// Whether there is no such program.
    pub not_found: bool,
    /// The system's error message.
    pub message: String,
}

/// Errors from the `container` tool.
#[derive(Debug)]
pub enum ContainerCliError {
    /// The tool could not be run.
    Exec(ExecFailure),
    /// The tool ran and reported failure.
    NonZero { code: i32, stderr: String },
    /// The tool's output is not what was expected.
    Parse(String),
    /// There is no such container.
    NotFound(String),
    /// There is such a container already.
    AlreadyExists(String),
}

/// A [`ContainerCliError`] in contracts.
pub enum ContainerCliErrorView {
    /// The tool could not be run.
    Exec { not_found: bool, message: Seq<char> },
    /// The tool ran and reported failure.
    NonZero { code: int, stderr: Seq<char> },
    /// The tool's output is not what was expected.
    Parse(Seq<char>),
    /// There is no such container.
    NotFound(Seq<char>),
    /// There is such a container already.
    AlreadyExists(Seq<char>),
}

impl View for ContainerCliError {
    type V = ContainerCliErrorView;

    open spec fn view(&self) -> ContainerCliErrorView {
        match self {
            ContainerCliError::Exec(f) => ContainerCliErrorView::Exec {
                not_found: f.not_found,
                message: f.message@,
            },
            ContainerCliError::NonZero { code, stderr } => ContainerCliErrorView::NonZero {
                code: *code as int,
                stderr: stderr@,
            },
            ContainerCliError::Parse(m) => ContainerCliErrorView::Parse(m@),
            ContainerCliError::NotFound(m) => ContainerCliErrorView::NotFound(m@),
            ContainerCliError::AlreadyExists(m) => ContainerCliErrorView::AlreadyExists(m@),
        }
    }
}

impl ContainerCliErrorView {
    /// The error as its reader sees it.
    pub open spec fn text(self) -> Seq<char> {
        match self {
            ContainerCliErrorView::Exec { not_found: _, message } =>
                "container CLI execution failed: "@ + message,
            ContainerCliErrorView::NonZero { code, stderr } =>
                "container CLI returned non-zero exit ("@ + signed_decimal(code) + "): "@ + stderr,
            ContainerCliErrorView::Parse(m) => "failed to parse container CLI output: "@ + m,
            ContainerCliErrorView::NotFound(m) => "container not found: "@ + m,
            ContainerCliErrorView::AlreadyExists(m) => "container already exists: "@ + m,
        }
    }
}

impl ContainerCliError {
    /// The error as its reader sees it.
    pub fn to_text(&self) -> (res: String)
        ensures
            res@ == self@.text(),
    {
        match self {
            ContainerCliError::Exec(f) => "container CLI execution failed: ".to_string().concat(
                &f.message,
            ),
            ContainerCliError::NonZero { code, stderr } => {
                let code_text = signed_decimal_text(*code);
                "container CLI returned non-zero exit (".to_string().concat(&code_text).concat(
                    "): ",
                ).concat(stderr)
            },
            ContainerCliError::Parse(m) => "failed to parse container CLI output: ".to_string(

            ).concat(m),
            ContainerCliError::NotFound(m) => "container not found: ".to_string().concat(m),
            ContainerCliError::AlreadyExists(m) => "container already exists: ".to_string().concat(
                m,
            ),
        }
    }
}

impl From<ExecFailure> for ContainerCliError {
    fn from(failure: ExecFailure) -> (res: Self) {
        ContainerCliError::Exec(failure)
    }
}

impl FromSpecImpl<ExecFailure> for ContainerCliError {
    open spec fn obeys_from_spec() -> bool {
        true
    }

    open spec fn from_spec(failure: ExecFailure) -> Self {
        ContainerCliError::Exec(failure)
    }
}

/// Top-level container object returned by `list` and `inspect`.
#[derive(Debug, Clone)]
pub struct ContainerEntry {
    /// Container ID: the user-assigned name.
    pub id: String,
    /// Full configuration snapshot.
    pub configuration: ContainerConfiguration,
    /// Runtime status (present when the container has been started).
    pub status: Option<ContainerStatus>,
}

/// Container configuration from `container inspect` / `container list`.
#[derive(Debug, Clone)]
pub struct ContainerConfiguration {
    /// User-assigned labels.
    pub labels: StringMap<String>,
    /// Image reference and descriptor.
    pub image: Option<ContainerImage>,
    /// Resource allocation.
    pub resources: Option<ContainerResources>,
    /// Published TCP ports.
    pub published_ports: Vec<PublishedPort>,
    /// Published unix sockets.
    pub published_sockets: Vec<PublishedSocket>,
}

/// Image metadata embedded in the configuration.
#[derive(Debug, Clone)]
pub struct ContainerImage {
    /// Image reference string (e.g. `docker.io/library/alpine:latest`).
    pub reference: String,
}

/// Resource allocation.
#[derive(Debug, Clone)]
pub struct ContainerResources {
    /// Number of CPUs.
    pub cpus: Option<u32>,
    /// Memory in bytes.
    pub memory_in_bytes: Option<u64>,
}

/// Published port mapping.
#[derive(Debug, Clone)]
pub struct PublishedPort {
    /// Port on the host.
    pub host_port: Option<u16>,
    /// Port in the container.
    pub container_port: Option<u16>,
    /// Protocol.
    pub protocol: Option<String>,
}

/// Published socket mapping.
#[derive(Debug, Clone)]
pub struct PublishedSocket {
    /// Path on the host.
    pub host_path: Option<String>,
    /// Path in the container.
    pub container_path: Option<String>,
}

/// Runtime status.
#[derive(Debug, Clone)]
pub struct ContainerStatus {
    /// Container state: `running`, `stopped`, etc.
    pub state: String,
    /// Network attachments.
    pub networks: Vec<ContainerNetwork>,
    /// When the container started.
    pub started_date: Option<String>,
}

/// Network attachment info.
#[derive(Debug, Clone)]
pub struct ContainerNetwork {
    /// Name of the network.
    pub network: String,
    /// Host name in it.
    pub hostname: Option<String>,
    /// Address in it.
    pub ipv4_address: Option<String>,
    /// Gateway of it.
    pub ipv4_gateway: Option<String>,
    /// Hardware address.
    pub mac_address: Option<String>,
}

impl Default for ContainerConfiguration {
    /// No labels, no image, no resources, nothing published.
    fn default() -> (res: Self)
        ensures
            res.labels@ == Map::<Seq<char>, String>::empty(),
            res.image is None,
            res.resources is None,
            res.published_ports@.len() == 0,
            res.published_sockets@.len() == 0,
    {
        ContainerConfiguration {
            labels: StringMap::new(),
            image: None,
            resources: None,
            published_ports: Vec::new(),
            published_sockets: Vec::new(),
        }
    }
}

impl Default for ContainerImage {
    /// An empty reference.
    fn default() -> (res: Self)
        ensures
            res.reference@.len() == 0,
    {
        ContainerImage { reference: String::new() }
    }
}

impl Default for ContainerResources {
    /// Nothing allocated.
    fn default() -> (res: Self)
        ensures
            res.cpus is None,
            res.memory_in_bytes is None,
    {
        ContainerResources { cpus: None, memory_in_bytes: None }
    }
}

impl Default for PublishedPort {
    /// Nothing known.
    fn default() -> (res: Self)
        ensures
            res.host_port is None,
            res.container_port is None,
            res.protocol is None,
    {
        PublishedPort { host_port: None, container_port: None, protocol: None }
    }
}

impl Default for PublishedSocket {
    /// Nothing known.
    fn default() -> (res: Self)
        ensures
            res.host_path is None,
            res.container_path is None,
    {
        PublishedSocket { host_path: None, container_path: None }
    }
}

impl Default for ContainerStatus {
    /// An empty state, no networks.
    fn default() -> (res: Self)
        ensures
            res.state@.len() == 0,
            res.networks@.len() == 0,
            res.started_date is None,
    {
        ContainerStatus { state: String::new(), networks: Vec::new(), started_date: None }
    }
}

impl Default for ContainerNetwork {
    /// An empty name, nothing else known.
    fn default() -> (res: Self)
        ensures
            res.network@.len() == 0,
            res.hostname is None,
            res.ipv4_address is None,
            res.ipv4_gateway is None,
            res.mac_address is None,
    {
        ContainerNetwork {
            network: String::new(),
            hostname: None,
            ipv4_address: None,
            ipv4_gateway: None,
            mac_address: None,
        }
    }
}

/// What the driver reads of a [`ContainerEntry`].
#[verifier::ext_equal]
pub struct EntryView {
    /// Container ID.
    pub id: Seq<char>,
    /// User-assigned labels.
    pub labels: Map<Seq<char>, Seq<char>>,
    /// Container state.
    pub state: Option<Seq<char>>,
}

impl View for ContainerEntry {
    type V = EntryView;

    open spec fn view(&self) -> EntryView {
        EntryView {
            id: self.id@,
            labels: self.configuration.labels@.map_values(|v: String| v@),
            state: match self.status {
                Some(s) => Some(s.state@),
                None => None,
            },
        }
    }
}

/// A command line: the program and its arguments.
#[derive(Debug, Clone)]
pub struct CliCommand {
    /// Program to run.
    pub bin: String,
    /// Its arguments.
    pub args: Vec<String>,
}

/// A [`CliCommand`] in contracts.
#[verifier::ext_equal]
pub struct CliCommandView {
    /// Program to run.
    pub bin: Seq<char>,
    /// Its arguments.
    pub args: Seq<Seq<char>>,
}

impl View for CliCommand {
    type V = CliCommandView;

    open spec fn view(&self) -> CliCommandView {
        CliCommandView { bin: self.bin@, args: texts(self.args@) }
    }
}

/// What a finished process left behind.
#[derive(Debug, Clone)]
pub struct ProcessOutput {
    /// Whether it reported success.
    pub success: bool,
    /// Its exit code; none if a signal ended it.
    pub code: Option<i32>,
    /// What it wrote to standard output.
    pub stdout: Vec<u8>,
    /// What it wrote to standard error.
    pub stderr: Vec<u8>,
}

/// A run of the tool in contracts: what it printed, or why it failed.
pub type RunView = Result<Seq<char>, ContainerCliErrorView>;

/// A run of the tool in contracts.
pub open spec fn run_view(run: Result<String, ContainerCliError>) -> RunView {
    match run {
        Ok(out) => Ok(out@),
        Err(e) => Err(e@),
    }
}

/// An outcome without a value in contracts.
pub open spec fn unit_view(res: Result<(), ContainerCliError>) -> Result<(), ContainerCliErrorView> {
    match res {
        Ok(_) => Ok(()),
        Err(e) => Err(e@),
    }
}

/// What a finished process means: its output, or the kind of its failure.
pub open spec fn process_result(
    success: bool,
    code: Option<i32>,
    stdout: Seq<char>,
    stderr: Seq<char>,
) -> RunView {
    if success {
        Ok(stdout)
    } else if contains_text(stderr, "already exists"@) || contains_text(stderr, "already in use"@) {
        Err(ContainerCliErrorView::AlreadyExists(trimmed(stderr)))
    } else {
        Err(
            ContainerCliErrorView::NonZero {
                code: match code {
                    Some(c) => c as int,
                    None => -1,
                },
                stderr: trimmed(stderr),
            },
        )
    }
}

/// Whether the tool complains that there is no such container.
pub open spec fn says_missing(stderr: Seq<char>) -> bool {
    contains_text(stderr, "not found"@) || contains_text(stderr, "no such"@)
}

/// The error of a command on the container `id`: a complaint that it is missing
/// becomes [`ContainerCliErrorView::NotFound`].
pub open spec fn lookup_error(id: Seq<char>, e: ContainerCliErrorView) -> ContainerCliErrorView {
    match e {
        ContainerCliErrorView::NonZero { code: _, stderr } => if says_missing(stderr) {
            ContainerCliErrorView::NotFound(id)
        } else {
            e
        },
        _ => e,
    }
}

/// The outcome of a command on the container `id` whose output does not matter.
pub open spec fn lookup_result(id: Seq<char>, run: RunView) -> Result<(), ContainerCliErrorView> {
    match run {
        Ok(_) => Ok(()),
        Err(e) => Err(lookup_error(id, e)),
    }
}

/// The outcome of `container run -d`: the container ID that it printed.
pub open spec fn run_detached_outcome(run: RunView) -> RunView {
    match run {
        Ok(out) => if trimmed(out).len() == 0 {
            Err(ContainerCliErrorView::Parse("container run returned empty ID"@))
        } else {
            Ok(trimmed(out))
        },
        Err(e) => Err(e),
    }
}

/// The arguments of `container run -d`.
pub open spec fn run_detached_args(
    image: Seq<char>,
    name: Seq<char>,
    args: Seq<Seq<char>>,
    command: Seq<Seq<char>>,
) -> Seq<Seq<char>> {
    seq!["run"@, "-d"@, "--name"@, name] + args + seq![image] + command
}

/// The arguments of `container stop`.
pub open spec fn stop_args(id: Seq<char>, timeout_secs: nat) -> Seq<Seq<char>> {
    seq!["stop"@, "--time"@, decimal(timeout_secs), id]
}

/// Seconds that a removal gives the container to stop.
pub const RM_STOP_TIMEOUT_SECS: u32 = 5;

/// Interprets a finished process, its output given as text.
pub fn interpret_process(
    success: bool,
    code: Option<i32>,
    stdout: String,
    stderr: String,
) -> (res: Result<String, ContainerCliError>)
    ensures
        run_view(res) == process_result(success, code, stdout@, stderr@),
{
    if success {
        return Ok(stdout);
    }
    let reason = stderr.trim().to_string();
    if text_contains(&stderr, "already exists") || text_contains(&stderr, "already in use") {
        Err(ContainerCliError::AlreadyExists(reason))
    } else {
        let code = match code {
            Some(c) => c,
            None => -1,
        };
        Err(ContainerCliError::NonZero { code, stderr: reason })
    }
}

/// Replaces the complaint that the container `id` is missing by
/// [`ContainerCliError::NotFound`].
fn map_missing(id: &str, e: ContainerCliError) -> (res: ContainerCliError)
    ensures
        res@ == lookup_error(id@, e@),
{
    match e {
        ContainerCliError::NonZero { code, stderr } => {
            if text_contains(&stderr, "not found") || text_contains(&stderr, "no such") {
                ContainerCliError::NotFound(id.to_string())
            } else {
                ContainerCliError::NonZero { code, stderr }
            }
        },
        other => other,
    }
}

/// Client of the `container` tool.
#[derive(Debug, Clone)]
pub struct ContainerCli {
    /// Program to run.
    pub bin: String,
}

impl ContainerCli {
    /// A client that runs the program `bin`.
    pub fn new(bin: &str) -> (res: Self)
        ensures
            res.bin@ == bin@,
    {
        ContainerCli { bin: bin.to_string() }
    }

    /// The command with the given arguments.
    pub fn run_args(&self, args: Vec<String>) -> (res: CliCommand)
        ensures
            res@ == (CliCommandView { bin: self.bin@, args: texts(args@) }),
    {
        CliCommand { bin: self.bin.clone(), args }
    }

    /// What a run of the tool amounts to.
    pub fn run_args_result(outcome: Result<ProcessOutput, ExecFailure>) -> (res: Result<
        String,
        ContainerCliError,
    >)
        ensures
            run_view(res) == (match outcome {
                Ok(p) => process_result(
                    p.success,
                    p.code,
                    lossy_utf8(p.stdout@),
                    lossy_utf8(p.stderr@),
                ),
                Err(f) => Err(
                    ContainerCliErrorView::Exec { not_found: f.not_found, message: f.message@ },
                ),
            }),
    {
        match outcome {
            Ok(p) => {
                let stdout = from_utf8_lossy(&p.stdout);
                let stderr = from_utf8_lossy(&p.stderr);
                interpret_process(p.success, p.code, stdout, stderr)
            },
            Err(f) => Err(ContainerCliError::from(f)),
        }
    }

    /// The command that checks that the tool is available and its system
    /// service is running: a plain list.
    pub fn verify(&self) -> (res: CliCommand)
        ensures
            res@ == (CliCommandView {
                bin: self.bin@,
                args: seq!["list"@, "--format"@, "json"@],
            }),
    {
        let mut args: Vec<String> = Vec::new();
        push_text(&mut args, "list");
        push_text(&mut args, "--format");
        push_text(&mut args, "json");
        proof {
            assert(texts(args@) =~= seq!["list"@, "--format"@, "json"@]);
        }
        self.run_args(args)
    }

    /// The command that creates and starts a container in detached mode.
    pub fn run_detached(
        &self,
        image: &str,
        name: &str,
        args: &Vec<String>,
        command: &Vec<String>,
    ) -> (res: CliCommand)
        ensures
            res@ == (CliCommandView {
                bin: self.bin@,
                args: run_detached_args(image@, name@, texts(args@), texts(command@)),
            }),
    {
        let mut cmd_args: Vec<String> = Vec::new();
        push_text(&mut cmd_args, "run");
        push_text(&mut cmd_args, "-d");
        push_text(&mut cmd_args, "--name");
        push_text(&mut cmd_args, name);
        proof {
            assert(texts(cmd_args@) =~= seq!["run"@, "-d"@, "--name"@, name@]);
        }
        push_texts(&mut cmd_args, args);
        push_text(&mut cmd_args, image);
        push_texts(&mut cmd_args, command);
        proof {
            assert(texts(cmd_args@) =~= run_detached_args(
                image@,
                name@,
                texts(args@),
                texts(command@),
            ));
        }
        self.run_args(cmd_args)
    }

    /// What `container run -d` amounts to: the container ID (name).
    pub fn run_detached_result(run: Result<String, ContainerCliError>) -> (res: Result<
        String,
        ContainerCliError,
    >)
        ensures
            run_view(res) == run_detached_outcome(run_view(run)),
    {
        match run {
            Ok(out) => {
                let container_id = out.trim().to_string();
                if container_id.as_str().is_empty() {
                    Err(ContainerCliError::Parse("container run returned empty ID".to_string()))
                } else {
                    Ok(container_id)
                }
            },
            Err(e) => Err(e),
        }
    }

    /// The command that stops a running container.
    pub fn stop(&self, container_id: &str, timeout_secs: u32) -> (res: CliCommand)
        ensures
            res@ == (CliCommandView {
                bin: self.bin@,
                args: stop_args(container_id@, timeout_secs as nat),
            }),
    {
        let timeout = decimal_text(timeout_secs as u64);
        let mut args: Vec<String> = Vec::new();
        push_text(&mut args, "stop");
        push_text(&mut args, "--time");
        push_text(&mut args, &timeout);
        push_text(&mut args, container_id);
        proof {
            assert(texts(args@) =~= stop_args(container_id@, timeout_secs as nat));
        }
        self.run_args(args)
    }

    /// What `container stop` amounts to.
    pub fn stop_result(container_id: &str, run: Result<String, ContainerCliError>) -> (res: Result<
        (),
        ContainerCliError,
    >)
        ensures
            unit_view(res) == lookup_result(container_id@, run_view(run)),
    {
        match run {
            Ok(_) => Ok(()),
            Err(e) => Err(map_missing(container_id, e)),
        }
    }

    /// The command to run before a container is removed, whatever comes of it:
    /// the container may have stopped already.
    pub fn rm_stop(&self, container_id: &str) -> (res: CliCommand)
        ensures
            res@ == (CliCommandView {
                bin: self.bin@,
                args: stop_args(container_id@, RM_STOP_TIMEOUT_SECS as nat),
            }),
    {
        self.stop(container_id, RM_STOP_TIMEOUT_SECS)
    }

    /// The command that removes a stopped container.
    pub fn rm(&self, container_id: &str) -> (res: CliCommand)
        ensures
            res@ == (CliCommandView { bin: self.bin@, args: seq!["rm"@, container_id@] }),
    {
        let mut args: Vec<String> = Vec::new();
        push_text(&mut args, "rm");
        push_text(&mut args, container_id);
        proof {
            assert(texts(args@) =~= seq!["rm"@, container_id@]);
        }
        self.run_args(args)
    }

    /// What `container rm` amounts to.
    pub fn rm_result(container_id: &str, run: Result<String, ContainerCliError>) -> (res: Result<
        (),
        ContainerCliError,
    >)
        ensures
            unit_view(res) == lookup_result(container_id@, run_view(run)),
    {
        match run {
            Ok(_) => Ok(()),
            Err(e) => Err(map_missing(container_id, e)),
        }
    }

    /// The command that lists all containers (including stopped ones).
    pub fn list_all(&self) -> (res: CliCommand)
        ensures
            res@ == (CliCommandView {
                bin: self.bin@,
                args: seq!["list"@, "--all"@, "--format"@, "json"@],
            }),
    {
        let mut args: Vec<String> = Vec::new();
        push_text(&mut args, "list");
        push_text(&mut args, "--all");
        push_text(&mut args, "--format");
        push_text(&mut args, "json");
        proof {
            assert(texts(args@) =~= seq!["list"@, "--all"@, "--format"@, "json"@]);
        }
        self.run_args(args)
    }

    /// The command that inspects a container by ID (name).
    pub fn inspect(&self, container_id: &str) -> (res: CliCommand)
        ensures
            res@ == (CliCommandView { bin: self.bin@, args: seq!["inspect"@, container_id@] }),
    {
        let mut args: Vec<String> = Vec::new();
        push_text(&mut args, "inspect");
        push_text(&mut args, container_id);
        proof {
            assert(texts(args@) =~= seq!["inspect"@, container_id@]);
        }
        self.run_args(args)
    }

    /// The command that pulls an image from a registry.
    pub fn pull(&self, image: &str) -> (res: CliCommand)
        ensures
            res@ == (CliCommandView { bin: self.bin@, args: seq!["image"@, "pull"@, image@] }),
    {
        let mut args: Vec<String> = Vec::new();
        push_text(&mut args, "image");
        push_text(&mut args, "pull");
        push_text(&mut args, image);
        proof {
            assert(texts(args@) =~= seq!["image"@, "pull"@, image@]);
        }
        self.run_args(args)
    }

    /// The command that succeeds if an image exists locally.
    pub fn image_exists(&self, image: &str) -> (res: CliCommand)
        ensures
            res@ == (CliCommandView { bin: self.bin@, args: seq!["image"@, "inspect"@, image@] }),
    {
        let mut args: Vec<String> = Vec::new();
        push_text(&mut args, "image");
        push_text(&mut args, "inspect");
        push_text(&mut args, image);
        proof {
            assert(texts(args@) =~= seq!["image"@, "inspect"@, image@]);
        }
        self.run_args(args)
    }
}

/// Whether the tool's output, without white space around it, says that there
/// are no containers.
pub open spec fn says_no_entries(payload: Seq<char>) -> bool {
    payload.len() == 0 || payload == "[]"@ || payload == "null"@
}

/// The number of bytes of unreadable output that an error message quotes.
pub const EXCERPT_BYTES: usize = 200;

/// The length in bytes of the excerpt of `payload`.
pub open spec fn excerpt_len(payload: Seq<char>) -> int {
    if encode_utf8(payload).len() < EXCERPT_BYTES {
        encode_utf8(payload).len() as int
    } else {
        EXCERPT_BYTES as int
    }
}

/// Whether the excerpt of `payload` ends between two characters.
pub open spec fn excerpt_is_whole(payload: Seq<char>) -> bool {
    is_char_boundary(encode_utf8(payload), excerpt_len(payload))
}

/// The start of `payload` that an error message quotes.
pub open spec fn excerpt(payload: Seq<char>) -> Seq<char> {
    decode_utf8(encode_utf8(payload).subrange(0, excerpt_len(payload)))
}

/// The message about output that is not the expected JSON.
pub open spec fn parse_message(payload: Seq<char>, reason: Seq<char>) -> Seq<char> {
    reason + " (input starts with: "@ + excerpt(payload) + ")"@
}

/// What a JSON decoder may answer on the text `payload`.
pub open spec fn may_decode<F: Fn(&str) -> Result<Vec<ContainerEntry>, String>>(
    decode: F,
    payload: Seq<char>,
    answer: Result<Vec<ContainerEntry>, String>,
) -> bool {
    exists|s: &str| s@ == payload && #[trigger] call_ensures(decode, (s,), answer)
}

/// Whether `decode` can be called on the text `payload`, and where it rejects
/// `payload` the excerpt of it ends between two characters.
pub open spec fn decodable<F: Fn(&str) -> Result<Vec<ContainerEntry>, String>>(
    decode: F,
    payload: Seq<char>,
) -> bool {
    &&& forall|s: &str| s@ == payload ==> #[trigger] call_requires(decode, (s,))
    &&& forall|answer: Result<Vec<ContainerEntry>, String>|
        #[trigger] may_decode(decode, payload, answer) && answer is Err ==> excerpt_is_whole(
            payload,
        )
}

/// The outcome of decoding output that is not empty: `answer` is the decoder's.
pub open spec fn is_decoded(
    payload: Seq<char>,
    answer: Result<Vec<ContainerEntry>, String>,
    res: Result<Vec<ContainerEntry>, ContainerCliError>,
) -> bool {
    match answer {
        Ok(entries) => res == Ok::<Vec<ContainerEntry>, ContainerCliError>(entries),
        Err(reason) => res matches Err(e) && e@ == ContainerCliErrorView::Parse(
            parse_message(payload, reason@),
        ),
    }
}

/// What the entries in the tool's output may be, given the JSON decoder.
pub open spec fn may_parse<F: Fn(&str) -> Result<Vec<ContainerEntry>, String>>(
    decode: F,
    output: Seq<char>,
    res: Result<Vec<ContainerEntry>, ContainerCliError>,
) -> bool {
    let payload = trimmed(output);
    if says_no_entries(payload) {
        res matches Ok(entries) && entries@.len() == 0
    } else {
        exists|answer: Result<Vec<ContainerEntry>, String>| #[trigger]
            may_decode(decode, payload, answer) && is_decoded(payload, answer, res)
    }
}

/// The message about output that is not the expected JSON.
fn parse_error(payload: &str, reason: &str) -> (res: ContainerCliError)
    requires
        excerpt_is_whole(payload@),
    ensures
        res@ == ContainerCliErrorView::Parse(parse_message(payload@, reason@)),
{
    let len: usize = payload.as_bytes().len();
    let end: usize = if len < EXCERPT_BYTES {
        len
    } else {
        EXCERPT_BYTES
    };
    let start = payload.split_at(end).0;
    proof {
        encode_utf8_decode_utf8(start@);
        assert(start@ == excerpt(payload@));
    }
    ContainerCliError::Parse(
        reason.to_string().concat(" (input starts with: ").concat(start).concat(")"),
    )
}

/// The entries that a JSON decoder found in `payload`, or the error that says why
/// it found none.
pub fn decoded_entries(payload: &str, answer: Result<Vec<ContainerEntry>, String>) -> (res: Result<
    Vec<ContainerEntry>,
    ContainerCliError,
>)
    requires
        answer is Err ==> excerpt_is_whole(payload@),
    ensures
        is_decoded(payload@, answer, res),
{
    match answer {
        Ok(entries) => Ok(entries),
        Err(reason) => Err(parse_error(payload, &reason)),
    }
}

/// Parse the JSON output from `container list` or `container inspect`.
///
/// Both commands return an array of [`ContainerEntry`] objects, which `decode`
/// reads; it answers with the reason where the text is no such array.
pub fn parse_container_entries<F: Fn(&str) -> Result<Vec<ContainerEntry>, String>>(
    output: &str,
    decode: F,
) -> (res: Result<Vec<ContainerEntry>, ContainerCliError>)
    requires
        decodable(decode, trimmed(output@)),
    ensures
        may_parse(decode, output@, res),
{
    let payload = output.trim();
    if payload.is_empty() || text_eq(payload, "[]") || text_eq(payload, "null") {
        return Ok(Vec::new());
    }
    let answer = decode(payload);
    proof {
        assert(may_decode(decode, payload@, answer));
    }
    decoded_entries(payload, answer)
}

/// The first of the containers in the tool's output on the container `id`.
pub open spec fn is_first_entry(
    id: Seq<char>,
    parsed: Result<Vec<ContainerEntry>, ContainerCliError>,
    res: Result<ContainerEntry, ContainerCliError>,
) -> bool {
    match parsed {
        Ok(entries) => if entries@.len() == 0 {
            res matches Err(e) && e@ == ContainerCliErrorView::NotFound(id)
        } else {
            res == Ok::<ContainerEntry, ContainerCliError>(entries@[0])
        },
        Err(e) => res == Err::<ContainerEntry, ContainerCliError>(e),
    }
}

/// The first of the containers in the tool's output on the container
/// `container_id`.
pub fn first_entry(
    container_id: &str,
    parsed: Result<Vec<ContainerEntry>, ContainerCliError>,
) -> (res: Result<ContainerEntry, ContainerCliError>)
    ensures
        is_first_entry(container_id@, parsed, res),
{
    match parsed {
        Ok(mut entries) => {
            if entries.len() == 0 {
                Err(ContainerCliError::NotFound(container_id.to_string()))
            } else {
                Ok(entries.swap_remove(0))
            }
        },
        Err(e) => Err(e),
    }
}

impl ContainerCli {
    /// What `container list` amounts to: the containers.
    pub fn list_all_result<F: Fn(&str) -> Result<Vec<ContainerEntry>, String>>(
        run: Result<String, ContainerCliError>,
        decode: F,
    ) -> (res: Result<Vec<ContainerEntry>, ContainerCliError>)
        requires
            run matches Ok(out) ==> decodable(decode, trimmed(out@)),
        ensures
            match run {
                Ok(out) => may_parse(decode, out@, res),
                Err(e) => res == Err::<Vec<ContainerEntry>, ContainerCliError>(e),
            },
    {
        match run {
            Ok(out) => parse_container_entries(&out, decode),
            Err(e) => Err(e),
        }
    }

    /// What `container inspect` amounts to: the first container of its output.
    pub fn inspect_result<F: Fn(&str) -> Result<Vec<ContainerEntry>, String>>(
        container_id: &str,
        run: Result<String, ContainerCliError>,
        decode: F,
    ) -> (res: Result<ContainerEntry, ContainerCliError>)
        requires
            run matches Ok(out) ==> decodable(decode, trimmed(out@)),
        ensures
            match run {
                Ok(out) => exists|parsed: Result<Vec<ContainerEntry>, ContainerCliError>| #[trigger]
                    may_parse(decode, out@, parsed) && is_first_entry(container_id@, parsed, res),
                Err(e) => res matches Err(x) && x@ == lookup_error(container_id@, e@),
            },
    {
        let out = match run {
            Ok(out) => out,
            Err(e) => {
                return Err(map_missing(container_id, e));
            },
        };
        let parsed = parse_container_entries(&out, decode);
        proof {
            assert(may_parse(decode, out@, parsed));
        }
        first_entry(container_id, parsed)
    }
}

} // verus!
