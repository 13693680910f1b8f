//! Laws on creating sandboxes, step by step.
use crate::cli::ContainerCliError;
use crate::compute::DriverSandbox;
use crate::creation::cleanup_sandbox_token_file;
use crate::creation::law_creation_keeps_to_its_steps;
use crate::creation::sandbox_token_host_path;
use crate::creation::token_clean_up_warns;
use crate::creation::Answer;
use crate::creation::AnswerView;
use crate::creation::CreateAction;
use crate::creation::CreateActionView;
use crate::creation::CreateStep;
use crate::creation::Creation;
use crate::creation::TokenCleanUp;
use crate::creation::TokenPath;
use crate::driver::driver_error;
use crate::driver::run_options;
use crate::driver::supervisor_command;
use crate::driver::AppleContainerComputeDriver;
use crate::error::ComputeDriverError;
use crate::laws::runs::chosen_image;
use crate::laws::runs::is_driver_error_of;
use crate::laws::runs::lemma_chosen_image;
use crate::laws::runs::lemma_is_driver_error_of;
use crate::laws::runs::text_of;
use crate::laws::tool::lemma_command_view;
use crate::laws::words::blank;
use crate::laws::words::is_trim_of;
use crate::laws::words::is_word;
use crate::laws::words::lemma_blank;
use crate::laws::words::lemma_is_trim_of;
use crate::laws::words::lemma_is_word;
use crate::laws::words::without_capitals;
use crate::text::ascii_lower;
use crate::text::texts;
use vstd::prelude::*;

verus! {

/// Whether a creation ends with a precondition that was not met.
pub open spec fn is_refused(res: (CreateStep, CreateAction), message: Seq<char>) -> bool {
    &&& res.0 is Finished
    &&& res.1 matches CreateAction::Finish(Err(ComputeDriverError::Precondition(m))) && m@ == message
}

/// Whether a creation ends with a message.
pub open spec fn is_failed(res: (CreateStep, CreateAction), message: Seq<char>) -> bool {
    &&& res.0 is Finished
    &&& res.1 matches CreateAction::Finish(Err(ComputeDriverError::Message(m))) && m@ == message
}

/// Whether the tool is asked something about an image.
pub open spec fn asks_of_image(
    action: CreateAction,
    bin: Seq<char>,
    verb: Seq<char>,
    image: Seq<char>,
) -> bool {
    action matches CreateAction::Command(c) && {
        &&& c.bin@ == bin
        &&& c.args@.len() == 3
        &&& c.args@[0]@ == "image"@
        &&& c.args@[1]@ == verb
        &&& c.args@[2]@ == image
    }
}

/// Whether the container is run: detached, under the sandbox's container name,
/// with these options, from the sandbox's image, with this command in it.
pub open spec fn runs_container(
    driver: AppleContainerComputeDriver,
    sandbox: DriverSandbox,
    options: Seq<String>,
    command: Seq<String>,
    res: (CreateStep, CreateAction),
) -> bool {
    let n = options.len() as int;
    &&& res.0 is Run
    &&& res.1 matches CreateAction::Command(c) && {
        &&& c.bin@ == driver.cli.bin@
        &&& c.args@.len() == 5 + n + command.len()
        &&& c.args@[0]@ == "run"@
        &&& c.args@[1]@ == "-d"@
        &&& c.args@[2]@ == "--name"@
        &&& c.args@[3]@ == "openshell-"@ + sandbox.name@
        &&& forall|i: int| 0 <= i < n ==> c.args@[4 + i]@ == (#[trigger] options[i])@
        &&& c.args@[4 + n]@ == chosen_image(driver.config, sandbox)
        &&& forall|i: int|
            0 <= i < command.len() ==> c.args@[5 + n + i]@ == (#[trigger] command[i])@
    }
}

/// Whether a sandbox has a token.
pub open spec fn has_token(sandbox: DriverSandbox) -> bool {
    sandbox.spec matches Some(spec) && spec.sandbox_token@.len() > 0
}

/// Whether two token paths are the same, as displayed.
pub open spec fn same_path(a: TokenPath, b: TokenPath) -> bool {
    &&& a.path@ == b.path@
    &&& match (a.parent, b.parent) {
        (Some(x), Some(y)) => x@ == y@,
        (None, None) => true,
        _ => false,
    }
}

/// Whether the sandbox's token is written, on a line of its own, to this path.
pub open spec fn writes_token(
    sandbox: DriverSandbox,
    path: TokenPath,
    res: (CreateStep, CreateAction),
) -> bool {
    &&& res.0 matches CreateStep::WriteTokenFile(p) && same_path(p, path)
    &&& res.1 matches CreateAction::WriteTokenFile { contents } && contents@
        == sandbox.spec->0.sandbox_token@ + "\n"@
}

/// With the image there, a sandbox with a token has it provided first; one without
/// is run at once, with nothing mounted for a token.
pub open spec fn goes_on_with_image(
    driver: AppleContainerComputeDriver,
    sandbox: DriverSandbox,
    options: Seq<String>,
    command: Seq<String>,
    res: (CreateStep, CreateAction),
) -> bool {
    if has_token(sandbox) {
        &&& res.0 is ResolveTokenPath
        &&& res.1 matches CreateAction::ResolveTokenPath { subdirectory, sandbox_id }
            && subdirectory@ == "apple-container-sandbox-tokens"@ && sandbox_id@ == sandbox.id@
    } else {
        runs_container(driver, sandbox, options, command, res)
    }
}

/// A creation needs a name, an id and an image, in this order. The pull policy
/// then decides: an image is pulled under `always` and looked for under `never`
/// and `ifnotpresent`, and a policy that there is not is refused.
pub proof fn law_creations_start_with_the_image(
    driver: AppleContainerComputeDriver,
    sandbox: DriverSandbox,
    log_level: &str,
    policy: Seq<char>,
    res: (CreateStep, CreateAction),
)
    requires
        call_ensures(
            AppleContainerComputeDriver::create_sandbox,
            (&driver, &sandbox, log_level),
            res,
        ),
        is_trim_of(policy, driver.config.image_pull_policy@),
    ensures
        ({
            let image = chosen_image(driver.config, sandbox);
            let bin = driver.cli.bin@;
            if sandbox.name@.len() == 0 {
                is_refused(res, "sandbox name is required"@)
            } else if sandbox.id@.len() == 0 {
                is_refused(res, "sandbox id is required"@)
            } else if image.len() == 0 {
                is_refused(
                    res,
                    "no sandbox image configured: set default_image in [openshell.drivers.apple-container] or provide an image in the sandbox template"@,
                )
            } else if policy.len() == 0 || is_word(policy, "ifnotpresent"@) {
                &&& res.0 matches CreateStep::InspectImage { pull_if_missing } && pull_if_missing
                &&& asks_of_image(res.1, bin, "inspect"@, image)
            } else if is_word(policy, "always"@) {
                &&& res.0 is PullImage
                &&& asks_of_image(res.1, bin, "pull"@, image)
            } else if is_word(policy, "never"@) {
                &&& res.0 matches CreateStep::InspectImage { pull_if_missing } && !pull_if_missing
                &&& asks_of_image(res.1, bin, "inspect"@, image)
            } else {
                exists|name: Seq<char>|
                    {
                        &&& #[trigger] is_word(policy, name)
                        &&& without_capitals(name)
                        &&& is_refused(
                            res,
                            "unsupported image_pull_policy '"@ + name
                                + "'; expected Always, IfNotPresent, or Never"@,
                        )
                    }
            }
        }),
{
    reveal_strlit("ifnotpresent");
    reveal_strlit("always");
    reveal_strlit("never");
    lemma_chosen_image(driver.config, sandbox);
    lemma_is_trim_of(policy, driver.config.image_pull_policy@);
    lemma_is_word(policy, "ifnotpresent"@);
    lemma_is_word(policy, "always"@);
    lemma_is_word(policy, "never"@);
    let name = ascii_lower(policy);
    assert(without_capitals(name));
    lemma_is_word(policy, name);
    if let CreateAction::Command(c) = res.1 {
        lemma_command_view(c);
    }
}

/// The run command in contracts is the one that runs the container.
proof fn lemma_runs_container(
    driver: AppleContainerComputeDriver,
    sandbox: DriverSandbox,
    token: Option<&str>,
    log_level: &str,
    options: Vec<String>,
    command: Vec<String>,
    res: (CreateStep, CreateAction),
)
    requires
        texts(options@) == run_options(driver.config, sandbox@, text_of(token), log_level@),
        texts(command@) == supervisor_command(driver.config, sandbox@),
        (res.0@, res.1@) == driver.creation(sandbox@, log_level@).run(text_of(token)),
    ensures
        runs_container(driver, sandbox, options@, command@, res),
{
    lemma_chosen_image(driver.config, sandbox);
    let n = options@.len() as int;
    if let CreateAction::Command(c) = res.1 {
        lemma_command_view(c);
        let all = texts(c.args@);
        let image = chosen_image(driver.config, sandbox);
        let name = "openshell-"@ + sandbox.name@;
        assert(texts(options@).len() == n);
        assert(texts(command@).len() == command@.len());
        assert(all == seq!["run"@, "-d"@, "--name"@, name] + texts(options@) + seq![image] + texts(
            command@,
        ));
        assert(all.len() == c.args@.len());
        assert(all[3] == name && all[4 + n] == image);
        assert forall|i: int| 0 <= i < n implies c.args@[4 + i]@ == (#[trigger] options@[i])@ by {
            assert(all[4 + i] == texts(options@)[i]);
            assert(all[4 + i] == c.args@[4 + i]@);
        }
        assert forall|i: int| 0 <= i < command@.len() implies c.args@[5 + n + i]@ == (
        #[trigger] command@[i])@ by {
            assert(all[5 + n + i] == texts(command@)[i]);
            assert(all[5 + n + i] == c.args@[5 + n + i]@);
        }
    }
}

/// Whether these are the options and the command that the driver builds for a
/// sandbox.
pub open spec fn are_built(
    driver: AppleContainerComputeDriver,
    sandbox: DriverSandbox,
    token: Option<&str>,
    log_level: &str,
    options: Vec<String>,
    command: Vec<String>,
) -> bool {
    &&& call_ensures(
        AppleContainerComputeDriver::build_run_args,
        (&driver, &sandbox, token, log_level),
        options,
    )
    &&& call_ensures(
        AppleContainerComputeDriver::build_supervisor_command,
        (&driver, &sandbox),
        command,
    )
}

/// An image that was looked for and found is used. One that was not found is
/// pulled where the policy lets it be, whatever the failure; else the creation is
/// refused.
pub proof fn law_missing_images_are_pulled_or_refused(
    driver: AppleContainerComputeDriver,
    sandbox: DriverSandbox,
    log_level: &str,
    pull_if_missing: bool,
    run: Result<String, ContainerCliError>,
    options: Vec<String>,
    command: Vec<String>,
    res: (CreateStep, CreateAction),
)
    requires
        are_built(driver, sandbox, None, log_level, options, command),
        call_ensures(
            AppleContainerComputeDriver::create_sandbox_next,
            (
                &driver,
                &sandbox,
                log_level,
                CreateStep::InspectImage { pull_if_missing },
                Answer::Command(run),
            ),
            res,
        ),
    ensures
        ({
            let image = chosen_image(driver.config, sandbox);
            if run is Ok {
                goes_on_with_image(driver, sandbox, options@, command@, res)
            } else if pull_if_missing {
                &&& res.0 is PullImage
                &&& asks_of_image(res.1, driver.cli.bin@, "pull"@, image)
            } else {
                is_refused(
                    res,
                    "image '"@ + image + "' not present locally and image_pull_policy=Never"@,
                )
            }
        }),
{
    lemma_chosen_image(driver.config, sandbox);
    if let CreateAction::Command(c) = res.1 {
        lemma_command_view(c);
    }
    if run is Ok && !has_token(sandbox) {
        lemma_runs_container(driver, sandbox, None, log_level, options, command, res);
    }
}

/// An image that was pulled is used; one that could not be pulled fails the
/// creation with the tool's error.
pub proof fn law_pulled_images_are_used(
    driver: AppleContainerComputeDriver,
    sandbox: DriverSandbox,
    log_level: &str,
    run: Result<String, ContainerCliError>,
    options: Vec<String>,
    command: Vec<String>,
    res: (CreateStep, CreateAction),
)
    requires
        are_built(driver, sandbox, None, log_level, options, command),
        call_ensures(
            AppleContainerComputeDriver::create_sandbox_next,
            (&driver, &sandbox, log_level, CreateStep::PullImage, Answer::Command(run)),
            res,
        ),
    ensures
        run is Ok ==> goes_on_with_image(driver, sandbox, options@, command@, res),
        run matches Err(e) ==> res.0 is Finished && (res.1 matches CreateAction::Finish(Err(x))
            && is_driver_error_of(e, x)),
{
    lemma_chosen_image(driver.config, sandbox);
    if run is Ok && !has_token(sandbox) {
        lemma_runs_container(driver, sandbox, None, log_level, options, command, res);
    }
    if let (Err(e), CreateAction::Finish(Err(x))) = (run, res.1) {
        lemma_is_driver_error_of(e, x);
    }
}

/// Once it is known where the token goes, its directory is created if the path
/// names one; else the token is written. Where that cannot be known, the creation
/// fails.
pub proof fn law_token_paths_are_resolved_first(
    driver: AppleContainerComputeDriver,
    sandbox: DriverSandbox,
    log_level: &str,
    resolved: Result<TokenPath, String>,
    res: (CreateStep, CreateAction),
)
    requires
        has_token(sandbox),
        call_ensures(
            AppleContainerComputeDriver::create_sandbox_next,
            (
                &driver,
                &sandbox,
                log_level,
                CreateStep::ResolveTokenPath,
                Answer::TokenPath(resolved),
            ),
            res,
        ),
    ensures
        match resolved {
            Ok(path) => if path.parent is Some {
                &&& res.0 matches CreateStep::CreateTokenDir(p) && same_path(p, path)
                &&& res.1 is CreateTokenDir
            } else {
                writes_token(sandbox, path, res)
            },
            Err(reason) => is_failed(res, "resolve state dir failed: "@ + reason@),
        },
{
}

/// With its directory there, the token is written; without, the creation fails and
/// names the directory.
pub proof fn law_tokens_are_written_into_their_directory(
    driver: AppleContainerComputeDriver,
    sandbox: DriverSandbox,
    log_level: &str,
    path: TokenPath,
    done: Result<(), String>,
    res: (CreateStep, CreateAction),
)
    requires
        has_token(sandbox),
        path.parent is Some,
        call_ensures(
            AppleContainerComputeDriver::create_sandbox_next,
            (&driver, &sandbox, log_level, CreateStep::CreateTokenDir(path), Answer::File(done)),
            res,
        ),
    ensures
        match done {
            Ok(_) => writes_token(sandbox, path, res),
            Err(reason) => is_failed(
                res,
                "create sandbox token directory "@ + path.parent->0@ + " failed: "@ + reason@,
            ),
        },
{
}

/// A token that was written is restricted to its owner; one that was not fails the
/// creation, which names the file.
pub proof fn law_written_tokens_are_restricted(
    driver: AppleContainerComputeDriver,
    sandbox: DriverSandbox,
    log_level: &str,
    path: TokenPath,
    done: Result<(), String>,
    res: (CreateStep, CreateAction),
)
    requires
        call_ensures(
            AppleContainerComputeDriver::create_sandbox_next,
            (&driver, &sandbox, log_level, CreateStep::WriteTokenFile(path), Answer::File(done)),
            res,
        ),
    ensures
        match done {
            Ok(_) => {
                &&& res.0 matches CreateStep::RestrictTokenFile(p) && same_path(p, path)
                &&& res.1 is RestrictTokenFile
            },
            Err(reason) => is_failed(
                res,
                "write sandbox token file "@ + path.path@ + " failed: "@ + reason@,
            ),
        },
{
}

/// With its token restricted to its owner, the container is run with the token
/// mounted, from the sandbox's image; a token that anyone may read fails the
/// creation.
pub proof fn law_restricted_tokens_are_mounted(
    driver: AppleContainerComputeDriver,
    sandbox: DriverSandbox,
    log_level: &str,
    path: TokenPath,
    token: &str,
    done: Result<(), String>,
    options: Vec<String>,
    command: Vec<String>,
    res: (CreateStep, CreateAction),
)
    requires
        token@ == path.path@,
        are_built(driver, sandbox, Some(token), log_level, options, command),
        call_ensures(
            AppleContainerComputeDriver::create_sandbox_next,
            (&driver, &sandbox, log_level, CreateStep::RestrictTokenFile(path), Answer::File(done)),
            res,
        ),
    ensures
        match done {
            Ok(_) => runs_container(driver, sandbox, options@, command@, res),
            Err(reason) => is_failed(
                res,
                "restrict sandbox token file "@ + path.path@ + " failed: "@ + reason@,
            ),
        },
{
    if done is Ok {
        lemma_runs_container(driver, sandbox, Some(token), log_level, options, command, res);
    }
}

/// A creation succeeds if and only if the run of its container did and printed
/// more than white space. After any other run the token file is removed, and the
/// creation is left with the error of the run.
pub proof fn law_creations_succeed_by_their_run(
    driver: AppleContainerComputeDriver,
    sandbox: DriverSandbox,
    log_level: &str,
    run: Result<String, ContainerCliError>,
    res: (CreateStep, CreateAction),
)
    requires
        call_ensures(
            AppleContainerComputeDriver::create_sandbox_next,
            (&driver, &sandbox, log_level, CreateStep::Run, Answer::Command(run)),
            res,
        ),
    ensures
        ({
            let cleans_up = res.1 matches CreateAction::RemoveTokenFile { sandbox_id }
                && sandbox_id@ == sandbox.id@;
            match run {
                Ok(out) => if blank(out@) {
                    &&& cleans_up
                    &&& res.0 matches CreateStep::CleanUp(ComputeDriverError::Message(m)) && m@
                        == "failed to parse container CLI output: "@
                        + "container run returned empty ID"@
                } else {
                    &&& res.0 is Finished
                    &&& res.1 matches CreateAction::Finish(Ok(_))
                },
                Err(e) => {
                    &&& cleans_up
                    &&& res.0 matches CreateStep::CleanUp(x) && is_driver_error_of(e, x)
                },
            }
        }),
{
    if let Ok(out) = run {
        lemma_blank(out@);
    }
    if let (Err(e), CreateStep::CleanUp(x)) = (run, res.0) {
        assert(x@ == driver_error(e@));
        lemma_is_driver_error_of(e, x);
    }
}

/// Whether two errors of the driver are of the same kind and say the same.
pub open spec fn same_driver_error(a: ComputeDriverError, b: ComputeDriverError) -> bool {
    match (a, b) {
        (ComputeDriverError::AlreadyExists, ComputeDriverError::AlreadyExists) => true,
        (ComputeDriverError::NotFound, ComputeDriverError::NotFound) => true,
        (
            ComputeDriverError::InvalidArgument(x),
            ComputeDriverError::InvalidArgument(y),
        ) => x@ == y@,
        (ComputeDriverError::Precondition(x), ComputeDriverError::Precondition(y)) => x@ == y@,
        (ComputeDriverError::Message(x), ComputeDriverError::Message(y)) => x@ == y@,
        _ => false,
    }
}

/// Once the token file is removed, or not, the creation fails with the error that
/// it was left with.
pub proof fn law_cleaned_up_creations_fail(
    driver: AppleContainerComputeDriver,
    sandbox: DriverSandbox,
    log_level: &str,
    e: ComputeDriverError,
    done: Result<(), String>,
    res: (CreateStep, CreateAction),
)
    requires
        call_ensures(
            AppleContainerComputeDriver::create_sandbox_next,
            (&driver, &sandbox, log_level, CreateStep::CleanUp(e), Answer::File(done)),
            res,
        ),
    ensures
        res.0 is Finished,
        res.1 matches CreateAction::Finish(Err(x)) && same_driver_error(x, e),
{
}

/// The image that a container is run from is the one that was looked for or pulled
/// on the way, whatever the answers: it stands right before the command that the
/// container runs, of seven words.
pub proof fn law_containers_run_from_the_settled_image(
    creation: Creation,
    answers: Seq<AnswerView>,
    i: int,
)
    requires
        creation.takes(answers),
        creation.after(answers).0 is Run,
        0 <= i <= answers.len(),
        creation.takes(answers.take(i)),
        creation.after(answers.take(i)).0 is InspectImage || creation.after(answers.take(i)).0
            is PullImage,
    ensures
        creation.after(answers).1 matches CreateActionView::Command(run) && creation.after(
            answers.take(i),
        ).1 matches CreateActionView::Command(settle) && {
            &&& settle.args.len() == 3
            &&& settle.args[0] == "image"@
            &&& run.args.len() >= 12
            &&& run.args[run.args.len() - 8] == settle.args[2]
            &&& run.args[run.args.len() - 7] == "/openshell-sandbox"@
        },
{
    law_creation_keeps_to_its_steps(creation, answers);
    law_creation_keeps_to_its_steps(creation, answers.take(i));
    let token = if creation.after(answers).1 == creation.run_command(None) {
        None
    } else {
        Some(
            choose|path: Seq<char>|
                creation.after(answers).1 == #[trigger] creation.run_command(Some(path)),
        )
    };
    assert(creation.after(answers).1 == creation.run_command(token));
    let command = supervisor_command(creation.config, creation.sandbox);
    let options = run_options(creation.config, creation.sandbox, token, creation.log_level);
    if let CreateActionView::Command(run) = creation.after(answers).1 {
        assert(command.len() == 7);
        assert(run.args[run.args.len() - 8] == run.args[4 + options.len() as int]);
        assert(run.args[run.args.len() - 7] == command[0]);
    }
}

/// A sandbox without a token has nothing to do with token files, whatever the
/// answers, until a run of its container failed.
pub proof fn law_without_a_token_no_file_is_touched(
    creation: Creation,
    sandbox: DriverSandbox,
    answers: Seq<AnswerView>,
)
    requires
        creation.sandbox == sandbox@,
        !has_token(sandbox),
        creation.takes(answers),
    ensures
        ({
            let action = creation.after(answers).1;
            &&& action !is ResolveTokenPath
            &&& action !is CreateTokenDir
            &&& action !is WriteTokenFile
            &&& action !is RestrictTokenFile
        }),
{
    law_creation_keeps_to_its_steps(creation, answers);
}

/// A token file is removed before the directory that it was in, if its path names
/// one; where it is not known to be anywhere, nothing is.
pub proof fn law_token_files_are_removed_before_their_directory(
    resolved: Result<TokenPath, String>,
    res: Vec<TokenCleanUp>,
)
    requires
        call_ensures(cleanup_sandbox_token_file, (&resolved,), res),
    ensures
        match resolved {
            Ok(path) => {
                &&& res@.len() == if path.parent is Some {
                    2int
                } else {
                    1int
                }
                &&& res@[0] is RemoveFile
                &&& path.parent is Some ==> res@[1] is RemoveDir
            },
            Err(_) => res@.len() == 0,
        },
{
}

/// Only a file that is left behind is worth a warning.
pub proof fn law_only_files_left_behind_warn(step: TokenCleanUp, not_found: bool, res: bool)
    requires
        call_ensures(token_clean_up_warns, (&step, not_found), res),
    ensures
        res <==> step is RemoveFile && !not_found,
{
}

/// A token path that was resolved is kept; the reason why it was not is told.
pub proof fn law_token_paths_are_kept_or_explained(
    resolved: Result<TokenPath, String>,
    res: Result<TokenPath, ComputeDriverError>,
)
    requires
        call_ensures(sandbox_token_host_path, (resolved,), res),
    ensures
        resolved matches Ok(path) ==> (res matches Ok(p) && same_path(p, path)),
        resolved matches Err(reason) ==> (res matches Err(ComputeDriverError::Message(m)) && m@
            == "resolve state dir failed: "@ + reason@),
{
}

} // verus!
