//! The creation of a sandbox.
//!
//! A creation takes several commands and file operations. It is a machine: it
//! says what to do next, and takes the answer to that.
use crate::cli::run_detached_args;
use crate::cli::run_detached_outcome;
use crate::cli::run_view;
use crate::cli::CliCommand;
use crate::cli::CliCommandView;
use crate::cli::ContainerCli;
use crate::cli::ContainerCliError;
use crate::cli::RunView;
use crate::compute::DriverSandbox;
use crate::compute::DriverSandboxView;
use crate::config::AppleContainerComputeConfig;
use crate::driver::container_name;
use crate::driver::container_name_of;
use crate::driver::driver_error;
use crate::driver::image_of;
use crate::driver::run_options;
use crate::driver::supervisor_command;
use crate::driver::AppleContainerComputeDriver;
use crate::error::ComputeDriverError;
use crate::error::ComputeDriverErrorView;
use crate::text::ascii_lower;
use crate::text::text_eq;
use crate::text::trimmed;
use vstd::pervasive::unreached;
use vstd::prelude::*;

verus! {

/// When to pull a sandbox image.
#[derive(Debug)]
pub enum PullPolicy {
    /// If the image is not there.
    IfNotPresent,
    /// In any case.
    Always,
    /// In no case.
    Never,
    /// The configuration names a policy that there is not.
    Unsupported(String),
}

/// A [`PullPolicy`] in contracts.
pub enum PullPolicyView {
    /// If the image is not there.
    IfNotPresent,
    /// In any case.
    Always,
    /// In no case.
    Never,
    /// The configuration names a policy that there is not.
    Unsupported(Seq<char>),
}

impl View for PullPolicy {
    type V = PullPolicyView;

    open spec fn view(&self) -> PullPolicyView {
        match self {
            PullPolicy::IfNotPresent => PullPolicyView::IfNotPresent,
            PullPolicy::Always => PullPolicyView::Always,
            PullPolicy::Never => PullPolicyView::Never,
            PullPolicy::Unsupported(name) => PullPolicyView::Unsupported(name@),
        }
    }
}

/// The pull policy that a configuration names. Neither case nor white space
/// around the name matters.
pub open spec fn policy_named(name: Seq<char>) -> PullPolicyView {
    let policy = ascii_lower(trimmed(name));
    if policy.len() == 0 || policy == "ifnotpresent"@ {
        PullPolicyView::IfNotPresent
    } else if policy == "always"@ {
        PullPolicyView::Always
    } else if policy == "never"@ {
        PullPolicyView::Never
    } else {
        PullPolicyView::Unsupported(policy)
    }
}

/// The pull policy that a configuration names.
pub fn pull_policy(name: &str) -> (res: PullPolicy)
    ensures
        res@ == policy_named(name@),
{
    let policy = name.trim().to_ascii_lowercase();
    if policy.as_str().is_empty() || text_eq(&policy, "ifnotpresent") {
        PullPolicy::IfNotPresent
    } else if text_eq(&policy, "always") {
        PullPolicy::Always
    } else if text_eq(&policy, "never") {
        PullPolicy::Never
    } else {
        PullPolicy::Unsupported(policy)
    }
}

/// Where sandbox tokens are kept, below the state directory.
pub const TOKEN_SUBDIRECTORY: &'static str = "apple-container-sandbox-tokens";

/// Where a sandbox's token file is on the host, as displayed.
#[derive(Debug)]
pub struct TokenPath {
    /// The file.
    pub path: String,
    /// The directory that it is in, if its path names one.
    pub parent: Option<String>,
}

/// A [`TokenPath`] in contracts.
pub struct TokenPathView {
    /// The file.
    pub path: Seq<char>,
    /// The directory that it is in, if its path names one.
    pub parent: Option<Seq<char>>,
}

impl View for TokenPath {
    type V = TokenPathView;

    open spec fn view(&self) -> TokenPathView {
        TokenPathView { path: self.path@, parent: self.parent.deep_view() }
    }
}

/// What a creation waits for.
#[derive(Debug)]
pub enum CreateStep {
    /// Whether the image is there; if not, it is pulled or the creation fails.
    InspectImage { pull_if_missing: bool },
    /// The image.
    PullImage,
    /// Where the token file goes.
    ResolveTokenPath,
    /// The directory of the token file.
    CreateTokenDir(TokenPath),
    /// The token file.
    WriteTokenFile(TokenPath),
    /// Its permissions.
    RestrictTokenFile(TokenPath),
    /// The container.
    Run,
    /// The removal of the token file, after which the creation fails.
    CleanUp(ComputeDriverError),
    /// Nothing.
    Finished,
}

/// A [`CreateStep`] in contracts.
pub enum CreateStepView {
    /// Whether the image is there; if not, it is pulled or the creation fails.
    InspectImage { pull_if_missing: bool },
    /// The image.
    PullImage,
    /// Where the token file goes.
    ResolveTokenPath,
    /// The directory of the token file.
    CreateTokenDir(TokenPathView),
    /// The token file.
    WriteTokenFile(TokenPathView),
    /// Its permissions.
    RestrictTokenFile(TokenPathView),
    /// The container.
    Run,
    /// The removal of the token file, after which the creation fails.
    CleanUp(ComputeDriverErrorView),
    /// Nothing.
    Finished,
}

impl View for CreateStep {
    type V = CreateStepView;

    open spec fn view(&self) -> CreateStepView {
        match self {
            CreateStep::InspectImage { pull_if_missing } => CreateStepView::InspectImage {
                pull_if_missing: *pull_if_missing,
            },
            CreateStep::PullImage => CreateStepView::PullImage,
            CreateStep::ResolveTokenPath => CreateStepView::ResolveTokenPath,
            CreateStep::CreateTokenDir(path) => CreateStepView::CreateTokenDir(path@),
            CreateStep::WriteTokenFile(path) => CreateStepView::WriteTokenFile(path@),
            CreateStep::RestrictTokenFile(path) => CreateStepView::RestrictTokenFile(path@),
            CreateStep::Run => CreateStepView::Run,
            CreateStep::CleanUp(error) => CreateStepView::CleanUp(error@),
            CreateStep::Finished => CreateStepView::Finished,
        }
    }
}

/// What a creation asks for.
#[derive(Debug)]
pub enum CreateAction {
    /// Run this command.
    Command(CliCommand),
    /// Find out where the sandbox's token file goes, below the given directory
    /// of the state directory.
    ResolveTokenPath { subdirectory: &'static str, sandbox_id: String },
    /// Create the directory of the token file, for the owner only.
    CreateTokenDir,
    /// Write the token file.
    WriteTokenFile { contents: String },
    /// Restrict the token file to its owner.
    RestrictTokenFile,
    /// Remove the sandbox's token file.
    RemoveTokenFile { sandbox_id: String },
    /// Nothing more: this is the result.
    Finish(Result<(), ComputeDriverError>),
}

/// A [`CreateAction`] in contracts.
pub enum CreateActionView {
    /// Run this command.
    Command(CliCommandView),
    /// Find out where the sandbox's token file goes.
    ResolveTokenPath { subdirectory: Seq<char>, sandbox_id: Seq<char> },
    /// Create the directory of the token file.
    CreateTokenDir,
    /// Write the token file.
    WriteTokenFile { contents: Seq<char> },
    /// Restrict the token file to its owner.
    RestrictTokenFile,
    /// Remove the sandbox's token file.
    RemoveTokenFile { sandbox_id: Seq<char> },
    /// Nothing more: this is the result.
    Finish(Result<(), ComputeDriverErrorView>),
}

impl View for CreateAction {
    type V = CreateActionView;

    open spec fn view(&self) -> CreateActionView {
        match self {
            CreateAction::Command(command) => CreateActionView::Command(command@),
            CreateAction::ResolveTokenPath {
                subdirectory,
                sandbox_id,
            } => CreateActionView::ResolveTokenPath {
                subdirectory: subdirectory@,
                sandbox_id: sandbox_id@,
            },
            CreateAction::CreateTokenDir => CreateActionView::CreateTokenDir,
            CreateAction::WriteTokenFile { contents } => CreateActionView::WriteTokenFile {
                contents: contents@,
            },
            CreateAction::RestrictTokenFile => CreateActionView::RestrictTokenFile,
            CreateAction::RemoveTokenFile { sandbox_id } => CreateActionView::RemoveTokenFile {
                sandbox_id: sandbox_id@,
            },
            CreateAction::Finish(Ok(_)) => CreateActionView::Finish(Ok(())),
            CreateAction::Finish(Err(e)) => CreateActionView::Finish(Err(e@)),
        }
    }
}

/// What came of what was asked for.
#[derive(Debug)]
pub enum Answer {
    /// Of a command.
    Command(Result<String, ContainerCliError>),
    /// Of finding out where the token file goes.
    TokenPath(Result<TokenPath, String>),
    /// Of anything else that touches files.
    File(Result<(), String>),
}

/// An [`Answer`] in contracts.
pub enum AnswerView {
    /// Of a command.
    Command(RunView),
    /// Of finding out where the token file goes.
    TokenPath(Result<TokenPathView, Seq<char>>),
    /// Of anything else that touches files.
    File(Result<(), Seq<char>>),
}

impl View for Answer {
    type V = AnswerView;

    open spec fn view(&self) -> AnswerView {
        match self {
            Answer::Command(run) => AnswerView::Command(run_view(*run)),
            Answer::TokenPath(Ok(path)) => AnswerView::TokenPath(Ok(path@)),
            Answer::TokenPath(Err(reason)) => AnswerView::TokenPath(Err(reason@)),
            Answer::File(Ok(_)) => AnswerView::File(Ok(())),
            Answer::File(Err(reason)) => AnswerView::File(Err(reason@)),
        }
    }
}

/// Whether an answer is one to what the creation asked for.
pub open spec fn create_awaits(step: CreateStepView, answer: AnswerView) -> bool {
    match step {
        CreateStepView::InspectImage { .. } => answer is Command,
        CreateStepView::PullImage => answer is Command,
        CreateStepView::ResolveTokenPath => answer is TokenPath,
        CreateStepView::CreateTokenDir(_) => answer is File,
        CreateStepView::WriteTokenFile(_) => answer is File,
        CreateStepView::RestrictTokenFile(_) => answer is File,
        CreateStepView::Run => answer is Command,
        CreateStepView::CleanUp(_) => answer is File,
        CreateStepView::Finished => false,
    }
}

/// A sandbox to create: with which tool and configuration, and at which log
/// level.
pub struct Creation {
    /// Program to run.
    pub bin: Seq<char>,
    /// Configuration.
    pub config: AppleContainerComputeConfig,
    /// The sandbox.
    pub sandbox: DriverSandboxView,
    /// Its log level.
    pub log_level: Seq<char>,
}

/// The token of a sandbox, if it has one.
pub open spec fn token_of(sandbox: DriverSandboxView) -> Option<Seq<char>> {
    match sandbox.spec {
        Some(spec) => if spec.sandbox_token.len() > 0 {
            Some(spec.sandbox_token)
        } else {
            None
        },
        None => None,
    }
}

/// The token of a sandbox, if it has one.
fn sandbox_token(sandbox: &DriverSandbox) -> (res: Option<&str>)
    ensures
        match (res, token_of(sandbox@)) {
            (Some(r), Some(t)) => r@ == t,
            (None, None) => true,
            _ => false,
        },
{
    match &sandbox.spec {
        Some(spec) => if spec.sandbox_token.as_str().is_empty() {
            None
        } else {
            Some(spec.sandbox_token.as_str())
        },
        None => None,
    }
}

/// The creation fails for a precondition.
pub open spec fn create_refused(message: Seq<char>) -> (CreateStepView, CreateActionView) {
    create_failed(ComputeDriverErrorView::Precondition(message))
}

/// The creation fails.
pub open spec fn create_failed(e: ComputeDriverErrorView) -> (CreateStepView, CreateActionView) {
    (CreateStepView::Finished, CreateActionView::Finish(Err(e)))
}

/// The message about a sandbox without an image.
pub open spec fn no_image_message() -> Seq<char> {
    "no sandbox image configured: set default_image in [openshell.drivers.apple-container] or provide an image in the sandbox template"@
}

impl Creation {
    /// The sandbox's image.
    pub open spec fn image(self) -> Seq<char> {
        image_of(self.config, self.sandbox)
    }

    /// The command with these arguments.
    pub open spec fn command(self, args: Seq<Seq<char>>) -> CreateActionView {
        CreateActionView::Command(CliCommandView { bin: self.bin, args })
    }

    /// The command that looks for the image.
    pub open spec fn inspect_command(self) -> CreateActionView {
        self.command(seq!["image"@, "inspect"@, self.image()])
    }

    /// The command that pulls the image.
    pub open spec fn pull_command(self) -> CreateActionView {
        self.command(seq!["image"@, "pull"@, self.image()])
    }

    /// The command that runs the container.
    pub open spec fn run_command(self, token_host_path: Option<Seq<char>>) -> CreateActionView {
        self.command(
            run_detached_args(
                self.image(),
                container_name_of(self.sandbox.name),
                run_options(self.config, self.sandbox, token_host_path, self.log_level),
                supervisor_command(self.config, self.sandbox),
            ),
        )
    }

    /// Run the container.
    pub open spec fn run(self, token_host_path: Option<Seq<char>>) -> (
        CreateStepView,
        CreateActionView,
    ) {
        (CreateStepView::Run, self.run_command(token_host_path))
    }

    /// Pull the image.
    pub open spec fn pull(self) -> (CreateStepView, CreateActionView) {
        (CreateStepView::PullImage, self.pull_command())
    }

    /// Look for the image.
    pub open spec fn inspect(self, pull_if_missing: bool) -> (CreateStepView, CreateActionView) {
        (CreateStepView::InspectImage { pull_if_missing }, self.inspect_command())
    }

    /// With the image there: provide the token if there is one, then run the
    /// container.
    pub open spec fn with_image(self) -> (CreateStepView, CreateActionView) {
        if token_of(self.sandbox) is Some {
            (
                CreateStepView::ResolveTokenPath,
                CreateActionView::ResolveTokenPath {
                    subdirectory: TOKEN_SUBDIRECTORY@,
                    sandbox_id: self.sandbox.id,
                },
            )
        } else {
            self.run(None)
        }
    }

    /// Write the token file: the token on a line of its own.
    pub open spec fn write_token(self, path: TokenPathView) -> (CreateStepView, CreateActionView) {
        (
            CreateStepView::WriteTokenFile(path),
            CreateActionView::WriteTokenFile { contents: token_of(self.sandbox)->0 + "\n"@ },
        )
    }

    /// Whether the creation may ever be at this step: only a sandbox with a name,
    /// an id and an image gets anywhere, only the pull policy lets an image be
    /// pulled, and only a token is written.
    pub open spec fn may_be_at(self, step: CreateStepView) -> bool {
        &&& step !is Finished ==> {
            &&& self.sandbox.name.len() > 0
            &&& self.sandbox.id.len() > 0
            &&& self.image().len() > 0
            &&& policy_named(self.config.image_pull_policy@) !is Unsupported
        }
        &&& match step {
            CreateStepView::InspectImage { pull_if_missing } => policy_named(
                self.config.image_pull_policy@,
            ) == if pull_if_missing {
                PullPolicyView::IfNotPresent
            } else {
                PullPolicyView::Never
            },
            CreateStepView::PullImage => policy_named(self.config.image_pull_policy@) !is Never,
            CreateStepView::ResolveTokenPath => token_of(self.sandbox) is Some,
            CreateStepView::CreateTokenDir(path) => token_of(self.sandbox) is Some && path.parent
                is Some,
            CreateStepView::WriteTokenFile(_) => token_of(self.sandbox) is Some,
            CreateStepView::RestrictTokenFile(_) => token_of(self.sandbox) is Some,
            _ => true,
        }
    }

    /// The first step: a sandbox needs a name, an id and an image, and the image
    /// has to be there as the pull policy says.
    pub open spec fn start(self) -> (CreateStepView, CreateActionView) {
        if self.sandbox.name.len() == 0 {
            create_refused("sandbox name is required"@)
        } else if self.sandbox.id.len() == 0 {
            create_refused("sandbox id is required"@)
        } else if self.image().len() == 0 {
            create_refused(no_image_message())
        } else {
            match policy_named(self.config.image_pull_policy@) {
                PullPolicyView::IfNotPresent => self.inspect(true),
                PullPolicyView::Always => self.pull(),
                PullPolicyView::Never => self.inspect(false),
                PullPolicyView::Unsupported(policy) => create_refused(
                    "unsupported image_pull_policy '"@ + policy
                        + "'; expected Always, IfNotPresent, or Never"@,
                ),
            }
        }
    }

    /// The step after an answer.
    pub open spec fn next(self, step: CreateStepView, answer: AnswerView) -> (
        CreateStepView,
        CreateActionView,
    ) {
        match (step, answer) {
            (CreateStepView::InspectImage { pull_if_missing }, AnswerView::Command(run)) => {
                if run is Ok {
                    self.with_image()
                } else if pull_if_missing {
                    self.pull()
                } else {
                    create_refused(
                        "image '"@ + self.image()
                            + "' not present locally and image_pull_policy=Never"@,
                    )
                }
            },
            (CreateStepView::PullImage, AnswerView::Command(run)) => match run {
                Ok(_) => self.with_image(),
                Err(e) => create_failed(driver_error(e)),
            },
            (CreateStepView::ResolveTokenPath, AnswerView::TokenPath(resolved)) => match resolved {
                Ok(path) => if path.parent is Some {
                    (CreateStepView::CreateTokenDir(path), CreateActionView::CreateTokenDir)
                } else {
                    self.write_token(path)
                },
                Err(reason) => create_failed(
                    ComputeDriverErrorView::Message("resolve state dir failed: "@ + reason),
                ),
            },
            (CreateStepView::CreateTokenDir(path), AnswerView::File(done)) => match done {
                Ok(_) => self.write_token(path),
                Err(reason) => create_failed(
                    ComputeDriverErrorView::Message(
                        "create sandbox token directory "@ + path.parent->0 + " failed: "@ + reason,
                    ),
                ),
            },
            (CreateStepView::WriteTokenFile(path), AnswerView::File(done)) => match done {
                Ok(_) => (
                    CreateStepView::RestrictTokenFile(path),
                    CreateActionView::RestrictTokenFile,
                ),
                Err(reason) => create_failed(
                    ComputeDriverErrorView::Message(
                        "write sandbox token file "@ + path.path + " failed: "@ + reason,
                    ),
                ),
            },
            (CreateStepView::RestrictTokenFile(path), AnswerView::File(done)) => match done {
                Ok(_) => self.run(Some(path.path)),
                Err(reason) => create_failed(
                    ComputeDriverErrorView::Message(
                        "restrict sandbox token file "@ + path.path + " failed: "@ + reason,
                    ),
                ),
            },
            (CreateStepView::Run, AnswerView::Command(run)) => match run_detached_outcome(run) {
                Ok(_) => (CreateStepView::Finished, CreateActionView::Finish(Ok(()))),
                Err(e) => (
                    CreateStepView::CleanUp(driver_error(e)),
                    CreateActionView::RemoveTokenFile { sandbox_id: self.sandbox.id },
                ),
            },
            (CreateStepView::CleanUp(e), AnswerView::File(_)) => create_failed(e),
            _ => arbitrary(),
        }
    }
}

/// Resolves where the token file goes.
pub fn sandbox_token_host_path(resolved: Result<TokenPath, String>) -> (res: Result<
    TokenPath,
    ComputeDriverError,
>)
    ensures
        match resolved {
            Ok(path) => res == Ok::<TokenPath, ComputeDriverError>(path),
            Err(reason) => res matches Err(e) && e@ == ComputeDriverErrorView::Message(
                "resolve state dir failed: "@ + reason@,
            ),
        },
{
    match resolved {
        Ok(path) => Ok(path),
        Err(reason) => Err(
            ComputeDriverError::Message("resolve state dir failed: ".to_string().concat(&reason)),
        ),
    }
}

/// A step in the removal of a token file.
#[derive(Debug)]
pub enum TokenCleanUp {
    /// Remove the file.
    RemoveFile,
    /// Remove the directory that it was in, which fails unless it is empty.
    RemoveDir,
}

/// How to remove a sandbox's token file: the file, and then the directory that
/// it was in. Where the file is not known to be anywhere, there is nothing to do.
pub open spec fn token_clean_up(resolved: Result<TokenPathView, Seq<char>>) -> Seq<TokenCleanUp> {
    match resolved {
        Ok(path) => if path.parent is Some {
            seq![TokenCleanUp::RemoveFile, TokenCleanUp::RemoveDir]
        } else {
            seq![TokenCleanUp::RemoveFile]
        },
        Err(_) => seq![],
    }
}

/// How to remove a sandbox's token file, given where it is. The steps are taken
/// in order, whatever came of those before.
pub fn cleanup_sandbox_token_file(resolved: &Result<TokenPath, String>) -> (res: Vec<TokenCleanUp>)
    ensures
        res@ == token_clean_up(
            match resolved {
                Ok(path) => Ok(path@),
                Err(reason) => Err(reason@),
            },
        ),
{
    let mut steps: Vec<TokenCleanUp> = Vec::new();
    if let Ok(path) = resolved {
        steps.push(TokenCleanUp::RemoveFile);
        if path.parent.is_some() {
            steps.push(TokenCleanUp::RemoveDir);
        }
    }
    steps
}

/// Whether a step in the removal of a token file that failed is worth a warning:
/// a file that is left behind is. One that was not there is not, nor is a
/// directory that holds other tokens.
pub fn token_clean_up_warns(step: &TokenCleanUp, not_found: bool) -> (res: bool)
    ensures
        res == (step is RemoveFile && !not_found),
{
    match step {
        TokenCleanUp::RemoveFile => !not_found,
        TokenCleanUp::RemoveDir => false,
    }
}

/// The creation fails.
fn create_fail(e: ComputeDriverError) -> (res: (CreateStep, CreateAction))
    ensures
        (res.0@, res.1@) == create_failed(e@),
{
    (CreateStep::Finished, CreateAction::Finish(Err(e)))
}

/// The creation fails for a precondition.
fn create_refuse(message: String) -> (res: (CreateStep, CreateAction))
    ensures
        (res.0@, res.1@) == create_refused(message@),
{
    create_fail(ComputeDriverError::Precondition(message))
}

/// The creation fails with what went wrong with a file.
fn create_file_failure(what: &str, path: &str, reason: &str) -> (res: (CreateStep, CreateAction))
    ensures
        (res.0@, res.1@) == create_failed(
            ComputeDriverErrorView::Message(what@ + path@ + " failed: "@ + reason@),
        ),
{
    let message = what.to_string().concat(path).concat(" failed: ").concat(reason);
    create_fail(ComputeDriverError::Message(message))
}

impl AppleContainerComputeDriver {
    /// The creation of a sandbox by this driver.
    pub open spec fn creation(&self, sandbox: DriverSandboxView, log_level: Seq<char>) -> Creation {
        Creation { bin: self.cli.bin@, config: self.config, sandbox, log_level }
    }

    /// Run the container.
    fn create_run(
        &self,
        sandbox: &DriverSandbox,
        token_host_path: Option<&str>,
        log_level: &str,
    ) -> (res: (CreateStep, CreateAction))
        ensures
            (res.0@, res.1@) == self.creation(sandbox@, log_level@).run(
                match token_host_path {
                    Some(path) => Some(path@),
                    None => None,
                },
            ),
    {
        let image = self.resolve_image(sandbox);
        let name = container_name(&sandbox.name);
        let run_args = self.build_run_args(sandbox, token_host_path, log_level);
        let command = self.build_supervisor_command(sandbox);
        let action = CreateAction::Command(
            self.cli.run_detached(image, &name, &run_args, &command),
        );
        (CreateStep::Run, action)
    }

    /// With the image there: provide the token if there is one, then run the
    /// container.
    fn create_with_image(&self, sandbox: &DriverSandbox, log_level: &str) -> (res: (
        CreateStep,
        CreateAction,
    ))
        ensures
            (res.0@, res.1@) == self.creation(sandbox@, log_level@).with_image(),
    {
        if sandbox_token(sandbox).is_some() {
            (
                CreateStep::ResolveTokenPath,
                CreateAction::ResolveTokenPath {
                    subdirectory: TOKEN_SUBDIRECTORY,
                    sandbox_id: sandbox.id.clone(),
                },
            )
        } else {
            self.create_run(sandbox, None, log_level)
        }
    }

    /// Pull the image.
    fn create_pull(&self, sandbox: &DriverSandbox, log_level: &str) -> (res: (
        CreateStep,
        CreateAction,
    ))
        ensures
            (res.0@, res.1@) == self.creation(sandbox@, log_level@).pull(),
    {
        let image = self.resolve_image(sandbox);
        (CreateStep::PullImage, CreateAction::Command(self.cli.pull(image)))
    }

    /// Write the token file.
    fn create_write_token(&self, sandbox: &DriverSandbox, log_level: &str, path: TokenPath) -> (res:
        (CreateStep, CreateAction))
        requires
            token_of(sandbox@) is Some,
        ensures
            (res.0@, res.1@) == self.creation(sandbox@, log_level@).write_token(path@),
    {
        let contents = match sandbox_token(sandbox) {
            Some(token) => token.to_string().concat("\n"),
            None => unreached(),
        };
        (CreateStep::WriteTokenFile(path), CreateAction::WriteTokenFile { contents })
    }

    /// Settle whether the sandbox image is there, as the pull policy says.
    fn ensure_image(&self, sandbox: &DriverSandbox, log_level: &str) -> (res: (
        CreateStep,
        CreateAction,
    ))
        requires
            sandbox@.name.len() > 0,
            sandbox@.id.len() > 0,
            image_of(self.config, sandbox@).len() > 0,
        ensures
            (res.0@, res.1@) == self.creation(sandbox@, log_level@).start(),
    {
        let image = self.resolve_image(sandbox);
        match pull_policy(&self.config.image_pull_policy) {
            PullPolicy::IfNotPresent => (
                CreateStep::InspectImage { pull_if_missing: true },
                CreateAction::Command(self.cli.image_exists(image)),
            ),
            PullPolicy::Always => self.create_pull(sandbox, log_level),
            PullPolicy::Never => (
                CreateStep::InspectImage { pull_if_missing: false },
                CreateAction::Command(self.cli.image_exists(image)),
            ),
            PullPolicy::Unsupported(policy) => create_refuse(
                "unsupported image_pull_policy '".to_string().concat(&policy).concat(
                    "'; expected Always, IfNotPresent, or Never",
                ),
            ),
        }
    }

    /// Create and start a sandbox container: the first step.
    pub fn create_sandbox(&self, sandbox: &DriverSandbox, log_level: &str) -> (res: (
        CreateStep,
        CreateAction,
    ))
        ensures
            self.creation(sandbox@, log_level@).may_be_at(res.0@),
            (res.0@, res.1@) == self.creation(sandbox@, log_level@).start(),
    {
        if sandbox.name.as_str().is_empty() {
            return create_refuse("sandbox name is required".to_string());
        }
        if sandbox.id.as_str().is_empty() {
            return create_refuse("sandbox id is required".to_string());
        }
        if self.resolve_image(sandbox).is_empty() {
            return create_refuse(
                "no sandbox image configured: set default_image in [openshell.drivers.apple-container] or provide an image in the sandbox template".to_string(),
            );
        }
        self.ensure_image(sandbox, log_level)
    }

    /// Create and start a sandbox container: the step after an answer.
    pub fn create_sandbox_next(
        &self,
        sandbox: &DriverSandbox,
        log_level: &str,
        step: CreateStep,
        answer: Answer,
    ) -> (res: (CreateStep, CreateAction))
        requires
            create_awaits(step@, answer@),
            self.creation(sandbox@, log_level@).may_be_at(step@),
        ensures
            self.creation(sandbox@, log_level@).may_be_at(res.0@),
            (res.0@, res.1@) == self.creation(sandbox@, log_level@).next(step@, answer@),
    {
        match (step, answer) {
            (CreateStep::InspectImage { pull_if_missing }, Answer::Command(run)) => {
                if run.is_ok() {
                    self.create_with_image(sandbox, log_level)
                } else if pull_if_missing {
                    self.create_pull(sandbox, log_level)
                } else {
                    let image = self.resolve_image(sandbox);
                    create_refuse(
                        "image '".to_string().concat(image).concat(
                            "' not present locally and image_pull_policy=Never",
                        ),
                    )
                }
            },
            (CreateStep::PullImage, Answer::Command(run)) => match run {
                Ok(_) => self.create_with_image(sandbox, log_level),
                Err(e) => create_fail(ComputeDriverError::from_cli(e)),
            },
            (CreateStep::ResolveTokenPath, Answer::TokenPath(resolved)) => {
                match sandbox_token_host_path(resolved) {
                    Ok(path) => if path.parent.is_some() {
                        (CreateStep::CreateTokenDir(path), CreateAction::CreateTokenDir)
                    } else {
                        self.create_write_token(sandbox, log_level, path)
                    },
                    Err(e) => create_fail(e),
                }
            },
            (CreateStep::CreateTokenDir(path), Answer::File(done)) => match done {
                Ok(_) => self.create_write_token(sandbox, log_level, path),
                Err(reason) => match &path.parent {
                    Some(parent) => create_file_failure(
                        "create sandbox token directory ",
                        parent,
                        &reason,
                    ),
                    None => unreached(),
                },
            },
            (CreateStep::WriteTokenFile(path), Answer::File(done)) => match done {
                Ok(_) => (CreateStep::RestrictTokenFile(path), CreateAction::RestrictTokenFile),
                Err(reason) => create_file_failure(
                    "write sandbox token file ",
                    &path.path,
                    &reason,
                ),
            },
            (CreateStep::RestrictTokenFile(path), Answer::File(done)) => match done {
                Ok(_) => self.create_run(sandbox, Some(&path.path), log_level),
                Err(reason) => create_file_failure(
                    "restrict sandbox token file ",
                    &path.path,
                    &reason,
                ),
            },
            (CreateStep::Run, Answer::Command(run)) => match ContainerCli::run_detached_result(
                run,
            ) {
                Ok(_) => (CreateStep::Finished, CreateAction::Finish(Ok(()))),
                Err(e) => (
                    CreateStep::CleanUp(ComputeDriverError::from_cli(e)),
                    CreateAction::RemoveTokenFile { sandbox_id: sandbox.id.clone() },
                ),
            },
            (CreateStep::CleanUp(e), Answer::File(_)) => create_fail(e),
            _ => unreached(),
        }
    }
}

/// The number of answers that a creation can still take.
pub open spec fn answers_left(step: CreateStepView) -> nat {
    match step {
        CreateStepView::InspectImage { .. } => 8,
        CreateStepView::PullImage => 7,
        CreateStepView::ResolveTokenPath => 6,
        CreateStepView::CreateTokenDir(_) => 5,
        CreateStepView::WriteTokenFile(_) => 4,
        CreateStepView::RestrictTokenFile(_) => 3,
        CreateStepView::Run => 2,
        CreateStepView::CleanUp(_) => 1,
        CreateStepView::Finished => 0,
    }
}

impl Creation {
    /// Where the creation stands after a list of answers.
    pub open spec fn after(self, answers: Seq<AnswerView>) -> (CreateStepView, CreateActionView)
        decreases answers.len(),
    {
        if answers.len() == 0 {
            self.start()
        } else {
            self.next(self.after(answers.drop_last()).0, answers.last())
        }
    }

    /// Whether each answer of a list is one to what the creation asked for.
    pub open spec fn takes(self, answers: Seq<AnswerView>) -> bool
        decreases answers.len(),
    {
        answers.len() > 0 ==> {
            &&& self.takes(answers.drop_last())
            &&& create_awaits(self.after(answers.drop_last()).0, answers.last())
        }
    }

    /// What the creation asks for, at each step that it may be at.
    pub open spec fn asks(self, step: CreateStepView, action: CreateActionView) -> bool {
        match step {
            CreateStepView::InspectImage { .. } => action == self.inspect_command(),
            CreateStepView::PullImage => action == self.pull_command(),
            CreateStepView::ResolveTokenPath => action is ResolveTokenPath,
            CreateStepView::CreateTokenDir(_) => action is CreateTokenDir,
            CreateStepView::WriteTokenFile(_) => action matches CreateActionView::WriteTokenFile {
                contents,
            } && contents == token_of(self.sandbox)->0 + "\n"@,
            CreateStepView::RestrictTokenFile(_) => action is RestrictTokenFile,
            CreateStepView::Run => if token_of(self.sandbox) is Some {
                exists|path: Seq<char>| action == #[trigger] self.run_command(Some(path))
            } else {
                action == self.run_command(None)
            },
            CreateStepView::CleanUp(_) => action is RemoveTokenFile,
            CreateStepView::Finished => action is Finish,
        }
    }
}

/// However it is answered, a creation only ever is where it may be, and asks for
/// what belongs there: a container is run with the token mounted if and only if
/// the sandbox has one, and what is written is the token on a line of its own.
pub proof fn law_creation_keeps_to_its_steps(creation: Creation, answers: Seq<AnswerView>)
    requires
        creation.takes(answers),
    ensures
        creation.may_be_at(creation.after(answers).0),
        creation.asks(creation.after(answers).0, creation.after(answers).1),
    decreases answers.len(),
{
    if answers.len() > 0 {
        let front = answers.drop_last();
        law_creation_keeps_to_its_steps(creation, front);
        let (step, action) = creation.after(front);
        let answer = answers.last();
        assert(create_awaits(step, answer));
        if let (CreateStepView::RestrictTokenFile(path), AnswerView::File(Ok(_))) = (step, answer) {
            assert(creation.after(answers).1 == creation.run_command(Some(path.path)));
        }
    }
}

/// A creation ends: each answer leaves fewer to come, so it takes at most eight.
pub proof fn law_creation_ends(creation: Creation, answers: Seq<AnswerView>)
    requires
        creation.takes(answers),
    ensures
        answers.len() + answers_left(creation.after(answers).0) <= 8,
    decreases answers.len(),
{
    if answers.len() > 0 {
        let front = answers.drop_last();
        law_creation_ends(creation, front);
        assert(create_awaits(creation.after(front).0, answers.last()));
    }
}

/// A sandbox is created only by a run of its container that printed an ID: where
/// a creation succeeds, that is what the last answer was.
pub proof fn law_created_only_by_a_run(creation: Creation, answers: Seq<AnswerView>)
    requires
        creation.takes(answers),
        creation.after(answers).1 == CreateActionView::Finish(Ok(())),
    ensures
        answers.len() > 0,
        creation.after(answers.drop_last()).0 is Run,
        answers.last() matches AnswerView::Command(Ok(out)) && trimmed(out).len() > 0,
{
    if answers.len() > 0 {
        let front = answers.drop_last();
        law_creation_keeps_to_its_steps(creation, front);
        assert(create_awaits(creation.after(front).0, answers.last()));
    }
}

/// A failed run leaves no token behind: the token file's removal is asked for
/// first, and whatever comes of it, the creation then fails with the run's error.
pub proof fn law_failed_run_is_cleaned_up(
    creation: Creation,
    run: RunView,
    removed: Result<(), Seq<char>>,
)
    requires
        run_detached_outcome(run) is Err,
    ensures
        ({
            let (step, action) = creation.next(CreateStepView::Run, AnswerView::Command(run));
            &&& action == CreateActionView::RemoveTokenFile { sandbox_id: creation.sandbox.id }
            &&& creation.next(step, AnswerView::File(removed)).1 == CreateActionView::Finish(
                Err(driver_error(run_detached_outcome(run)->Err_0)),
            )
        }),
{
}

/// The token path that a step carries, if it carries one.
pub open spec fn path_at(step: CreateStepView) -> Option<TokenPathView> {
    match step {
        CreateStepView::CreateTokenDir(path) => Some(path),
        CreateStepView::WriteTokenFile(path) => Some(path),
        CreateStepView::RestrictTokenFile(path) => Some(path),
        _ => None,
    }
}

/// A token path that a creation works on was among its answers.
proof fn lemma_path_was_resolved(creation: Creation, answers: Seq<AnswerView>)
    requires
        creation.takes(answers),
    ensures
        path_at(creation.after(answers).0) matches Some(path) ==> answers.contains(
            AnswerView::TokenPath(Ok(path)),
        ),
    decreases answers.len(),
{
    if answers.len() > 0 {
        let front = answers.drop_last();
        lemma_path_was_resolved(creation, front);
        assert(create_awaits(creation.after(front).0, answers.last()));
        if let Some(path) = path_at(creation.after(answers).0) {
            let resolved = AnswerView::TokenPath(Ok(path));
            if creation.after(front).0 is ResolveTokenPath {
                assert(answers[answers.len() - 1] == resolved);
            } else {
                let i = choose|i: int| 0 <= i < front.len() && front[i] == resolved;
                assert(answers[i] == resolved);
            }
        }
    }
}

/// The token that a container is run with is the one that was written for it:
/// where the container of a sandbox with a token is run, the file mounted is the
/// one that was just written and then restricted to its owner, both with
/// success, at the path that was resolved for the sandbox.
pub proof fn law_mounted_token_was_written(creation: Creation, answers: Seq<AnswerView>)
    requires
        creation.takes(answers),
        creation.after(answers).0 is Run,
        token_of(creation.sandbox) is Some,
    ensures
        answers.len() >= 2,
        answers.last() matches AnswerView::File(Ok(_)),
        answers.drop_last().last() matches AnswerView::File(Ok(_)),
        creation.after(answers.drop_last()).0 matches CreateStepView::RestrictTokenFile(path) && {
            &&& creation.after(answers).1 == creation.run_command(Some(path.path))
            &&& creation.after(answers.drop_last()).1 is RestrictTokenFile
            &&& creation.after(answers.drop_last().drop_last()) == creation.write_token(path)
            &&& answers.contains(AnswerView::TokenPath(Ok(path)))
        },
{
    let front = answers.drop_last();
    let before = front.drop_last();
    assert(answers.len() > 0);
    assert(creation.takes(front));
    assert(create_awaits(creation.after(front).0, answers.last()));
    law_creation_keeps_to_its_steps(creation, front);
    assert(creation.after(front).0 is RestrictTokenFile);
    assert(front.len() > 0);
    assert(creation.takes(before));
    assert(create_awaits(creation.after(before).0, front.last()));
    law_creation_keeps_to_its_steps(creation, before);
    lemma_path_was_resolved(creation, front);
    let path = creation.after(front).0->RestrictTokenFile_0;
    let resolved = AnswerView::TokenPath(Ok(path));
    let i = choose|i: int| 0 <= i < front.len() && front[i] == resolved;
    assert(answers[i] == resolved);
}

/// An image is pulled only as the policy says: under `never` it is not, and under
/// `always` the creation starts with it.
pub proof fn law_images_are_pulled_as_configured(creation: Creation, answers: Seq<AnswerView>)
    requires
        creation.takes(answers),
    ensures
        policy_named(creation.config.image_pull_policy@) is Never ==> creation.after(answers).0
            !is PullImage,
        policy_named(creation.config.image_pull_policy@) is Always && creation.start().0
            !is Finished ==> creation.start() == creation.pull(),
{
    law_creation_keeps_to_its_steps(creation, answers);
}

} // verus!
