//! Laws on stopping and deleting sandboxes.
use crate::cli::CliCommand;
use crate::cli::ContainerCliError;
use crate::creation::Answer;
use crate::deletion::DeleteAction;
use crate::deletion::DeleteStep;
use crate::driver::AppleContainerComputeDriver;
use crate::error::ComputeDriverError;
use crate::laws::runs::is_driver_error_of;
use crate::laws::runs::lemma_is_driver_error_of;
use crate::laws::tool::complains_of_absence;
use crate::laws::tool::lemma_command_view;
use crate::laws::words::is_decimal;
use crate::laws::words::lemma_holds_phrase;
use crate::laws::words::lemma_is_decimal;
use vstd::prelude::*;

verus! {

/// Whether a container was missing when a command on it ran: the command failed,
/// and the tool said so in one of its phrases or was found to have said so.
pub open spec fn was_missing(run: Result<String, ContainerCliError>) -> bool {
    match run {
        Err(ContainerCliError::NonZero { code: _, stderr }) => complains_of_absence(stderr@),
        Err(ContainerCliError::NotFound(_)) => true,
        _ => false,
    }
}

/// A deletion needs an id, and starts with giving the sandbox's container five
/// seconds to stop.
pub proof fn law_deletions_start_with_a_stop(
    driver: AppleContainerComputeDriver,
    id: &str,
    name: &str,
    res: (DeleteStep, DeleteAction),
)
    requires
        call_ensures(AppleContainerComputeDriver::delete_sandbox, (&driver, id, name), res),
    ensures
        id@.len() == 0 ==> res.0 is Finished && (res.1 matches DeleteAction::Finish(
            Err(ComputeDriverError::Precondition(m)),
        ) && m@ == "sandbox id is required"@),
        id@.len() > 0 ==> res.0 is Stop && (res.1 matches DeleteAction::Command(c) && {
            &&& c.bin@ == driver.cli.bin@
            &&& c.args@.len() == 4
            &&& c.args@[0]@ == "stop"@
            &&& c.args@[1]@ == "--time"@
            &&& is_decimal(c.args@[2]@, 5)
            &&& c.args@[3]@ == "openshell-"@ + name@
        }),
{
    lemma_is_decimal(5);
    if let DeleteAction::Command(c) = res.1 {
        lemma_command_view(c);
    }
}

/// Whatever came of the stop, the container is removed next.
pub proof fn law_deletions_remove_after_any_stop(
    driver: AppleContainerComputeDriver,
    id: &str,
    name: &str,
    run: Result<String, ContainerCliError>,
    res: (DeleteStep, DeleteAction),
)
    requires
        call_ensures(
            AppleContainerComputeDriver::delete_sandbox_next,
            (&driver, id, name, DeleteStep::Stop, Answer::Command(run)),
            res,
        ),
    ensures
        res.0 is Remove,
        res.1 matches DeleteAction::Command(c) && {
            &&& c.bin@ == driver.cli.bin@
            &&& c.args@.len() == 2
            &&& c.args@[0]@ == "rm"@
            &&& c.args@[1]@ == "openshell-"@ + name@
        },
{
    if let DeleteAction::Command(c) = res.1 {
        lemma_command_view(c);
    }
}

/// The token file goes once the container does, or was missing. A removal that
/// failed without the tool saying "not found" or "no such" ends the deletion with
/// an error, and no token file is touched.
pub proof fn law_tokens_go_only_with_their_container(
    driver: AppleContainerComputeDriver,
    id: &str,
    name: &str,
    run: Result<String, ContainerCliError>,
    res: (DeleteStep, DeleteAction),
)
    requires
        call_ensures(
            AppleContainerComputeDriver::delete_sandbox_next,
            (&driver, id, name, DeleteStep::Remove, Answer::Command(run)),
            res,
        ),
    ensures
        run is Ok || was_missing(run) <==> res.1 is RemoveTokenFile,
        res.1 matches DeleteAction::RemoveTokenFile { sandbox_id } ==> sandbox_id@ == id@ && (
        res.0 matches DeleteStep::CleanUp { existed } && existed == (run is Ok)),
        run matches Err(e) ==> (!was_missing(run) ==> res.0 is Finished && (
        res.1 matches DeleteAction::Finish(Err(x)) && is_driver_error_of(e, x))),
{
    if let Err(e) = run {
        if let ContainerCliError::NonZero { code, stderr } = e {
            lemma_holds_phrase(stderr@, "not found"@);
            lemma_holds_phrase(stderr@, "no such"@);
        }
        if let DeleteAction::Finish(Err(x)) = res.1 {
            lemma_is_driver_error_of(e, x);
        }
    }
}

/// A deletion tells whether there was a container, whatever came of the token
/// file.
pub proof fn law_deletions_tell_whether_there_was_a_container(
    driver: AppleContainerComputeDriver,
    id: &str,
    name: &str,
    existed: bool,
    done: Result<(), String>,
    res: (DeleteStep, DeleteAction),
)
    requires
        call_ensures(
            AppleContainerComputeDriver::delete_sandbox_next,
            (&driver, id, name, DeleteStep::CleanUp { existed }, Answer::File(done)),
            res,
        ),
    ensures
        res.0 is Finished,
        res.1 matches DeleteAction::Finish(Ok(told)) && told == existed,
{
}

/// A sandbox is stopped by stopping its container, within the configured time.
pub proof fn law_sandboxes_stop_with_their_container(
    driver: AppleContainerComputeDriver,
    name: &str,
    res: CliCommand,
)
    requires
        call_ensures(AppleContainerComputeDriver::stop_sandbox, (&driver, name), res),
    ensures
        res.bin@ == driver.cli.bin@,
        res.args@.len() == 4,
        res.args@[0]@ == "stop"@,
        res.args@[1]@ == "--time"@,
        is_decimal(res.args@[2]@, driver.config.stop_timeout_secs as int),
        res.args@[3]@ == "openshell-"@ + name@,
{
    lemma_is_decimal(driver.config.stop_timeout_secs as nat);
    lemma_command_view(res);
}

/// A sandbox is looked up by inspecting its container.
pub proof fn law_sandboxes_are_looked_up_by_their_container(
    driver: AppleContainerComputeDriver,
    name: &str,
    res: CliCommand,
)
    requires
        call_ensures(AppleContainerComputeDriver::get_sandbox_command, (&driver, name), res),
    ensures
        res.bin@ == driver.cli.bin@,
        res.args@.len() == 2,
        res.args@[0]@ == "inspect"@,
        res.args@[1]@ == "openshell-"@ + name@,
{
    lemma_command_view(res);
}

/// A stop that failed is an error; where the container was missing, the message
/// names it.
pub proof fn law_failed_stops_are_errors(
    name: &str,
    run: Result<String, ContainerCliError>,
    res: Result<(), ComputeDriverError>,
)
    requires
        call_ensures(AppleContainerComputeDriver::stop_sandbox_result, (name, run), res),
    ensures
        run is Ok <==> res is Ok,
        run matches Err(ContainerCliError::NonZero { code: _, stderr }) ==> (complains_of_absence(
            stderr@,
        ) ==> (res matches Err(ComputeDriverError::Message(m)) && m@ == "not found: "@ + (
        "openshell-"@ + name@))),
        run matches Err(e) ==> (!(e matches ContainerCliError::NonZero { code: _, stderr }
            && complains_of_absence(stderr@)) ==> (res matches Err(x) && is_driver_error_of(e, x))),
{
    if let Err(e) = run {
        if let ContainerCliError::NonZero { code, stderr } = e {
            lemma_holds_phrase(stderr@, "not found"@);
            lemma_holds_phrase(stderr@, "no such"@);
        }
        if let Err(x) = res {
            if !(e matches ContainerCliError::NonZero { code: _, stderr } && complains_of_absence(
                stderr@,
            )) {
                lemma_is_driver_error_of(e, x);
            }
        }
    }
}

} // verus!
