//! Stopping and deleting a sandbox.
//!
//! A deletion takes several commands. It is a machine: it says what to do next,
//! and takes the answer to that.
use crate::cli::lookup_result;
use crate::cli::run_view;
use crate::cli::stop_args;
use crate::cli::CliCommand;
use crate::cli::CliCommandView;
use crate::cli::ContainerCli;
use crate::cli::ContainerCliError;
use crate::cli::ContainerCliErrorView;
use crate::cli::RM_STOP_TIMEOUT_SECS;
use crate::creation::Answer;
use crate::creation::AnswerView;
use crate::driver::container_name;
use crate::driver::container_name_of;
use crate::driver::driver_error;
use crate::driver::AppleContainerComputeDriver;
use crate::error::ComputeDriverError;
use crate::error::ComputeDriverErrorView;
use vstd::pervasive::unreached;
use vstd::prelude::*;

verus! {

/// What a deletion waits for.
#[derive(Debug, Clone, Copy)]
pub enum DeleteStep {
    /// The container to stop.
    Stop,
    /// The container's removal.
    Remove,
    /// The removal of the token file; `existed` tells whether there was a
    /// container.
    CleanUp { existed: bool },
    /// Nothing.
    Finished,
}

/// What a deletion asks for.
#[derive(Debug)]
pub enum DeleteAction {
    /// Run this command.
    Command(CliCommand),
    /// Remove the sandbox's token file.
    RemoveTokenFile { sandbox_id: String },
    /// Nothing more: this is the result, whether there was a container.
    Finish(Result<bool, ComputeDriverError>),
}

/// A [`DeleteAction`] in contracts.
pub enum DeleteActionView {
    /// Run this command.
    Command(CliCommandView),
    /// Remove the sandbox's token file.
    RemoveTokenFile { sandbox_id: Seq<char> },
    /// Nothing more: this is the result, whether there was a container.
    Finish(Result<bool, ComputeDriverErrorView>),
}

impl View for DeleteAction {
    type V = DeleteActionView;

    open spec fn view(&self) -> DeleteActionView {
        match self {
            DeleteAction::Command(command) => DeleteActionView::Command(command@),
            DeleteAction::RemoveTokenFile { sandbox_id } => DeleteActionView::RemoveTokenFile {
                sandbox_id: sandbox_id@,
            },
            DeleteAction::Finish(Ok(existed)) => DeleteActionView::Finish(Ok(*existed)),
            DeleteAction::Finish(Err(e)) => DeleteActionView::Finish(Err(e@)),
        }
    }
}

/// Whether an answer is one to what the deletion asked for.
pub open spec fn delete_awaits(step: DeleteStep, answer: AnswerView) -> bool {
    match step {
        DeleteStep::Stop => answer is Command,
        DeleteStep::Remove => answer is Command,
        DeleteStep::CleanUp { .. } => answer is File,
        DeleteStep::Finished => false,
    }
}

/// A sandbox to delete, and with which tool.
pub struct Deletion {
    /// Program to run.
    pub bin: Seq<char>,
    /// The sandbox's id.
    pub sandbox_id: Seq<char>,
    /// The sandbox's name.
    pub sandbox_name: Seq<char>,
}

impl Deletion {
    /// The command that stops the container.
    pub open spec fn stop_command(self) -> CliCommandView {
        CliCommandView {
            bin: self.bin,
            args: stop_args(container_name_of(self.sandbox_name), RM_STOP_TIMEOUT_SECS as nat),
        }
    }

    /// The command that removes the container.
    pub open spec fn remove_command(self) -> CliCommandView {
        CliCommandView { bin: self.bin, args: seq!["rm"@, container_name_of(self.sandbox_name)] }
    }

    /// The removal of the token file.
    pub open spec fn clean_up(self, existed: bool) -> (DeleteStep, DeleteActionView) {
        (
            DeleteStep::CleanUp { existed },
            DeleteActionView::RemoveTokenFile { sandbox_id: self.sandbox_id },
        )
    }

    /// The first step: stop the container.
    pub open spec fn start(self) -> (DeleteStep, DeleteActionView) {
        if self.sandbox_id.len() == 0 {
            (
                DeleteStep::Finished,
                DeleteActionView::Finish(
                    Err(ComputeDriverErrorView::Precondition("sandbox id is required"@)),
                ),
            )
        } else {
            (DeleteStep::Stop, DeleteActionView::Command(self.stop_command()))
        }
    }

    /// The step after an answer.
    pub open spec fn next(self, step: DeleteStep, answer: AnswerView) -> (
        DeleteStep,
        DeleteActionView,
    ) {
        match (step, answer) {
            (DeleteStep::Stop, AnswerView::Command(_)) => (
                DeleteStep::Remove,
                DeleteActionView::Command(self.remove_command()),
            ),
            (DeleteStep::Remove, AnswerView::Command(run)) => match lookup_result(
                container_name_of(self.sandbox_name),
                run,
            ) {
                Ok(_) => self.clean_up(true),
                Err(ContainerCliErrorView::NotFound(_)) => self.clean_up(false),
                Err(e) => (DeleteStep::Finished, DeleteActionView::Finish(Err(driver_error(e)))),
            },
            (DeleteStep::CleanUp { existed }, AnswerView::File(_)) => (
                DeleteStep::Finished,
                DeleteActionView::Finish(Ok(existed)),
            ),
            _ => arbitrary(),
        }
    }
}

impl AppleContainerComputeDriver {
    /// The deletion of a sandbox by this driver.
    pub open spec fn deletion(&self, sandbox_id: Seq<char>, sandbox_name: Seq<char>) -> Deletion {
        Deletion { bin: self.cli.bin@, sandbox_id, sandbox_name }
    }

    /// The command that stops a sandbox container without deleting it.
    pub fn stop_sandbox(&self, sandbox_name: &str) -> (res: CliCommand)
        ensures
            res@ == (CliCommandView {
                bin: self.cli.bin@,
                args: stop_args(
                    container_name_of(sandbox_name@),
                    self.config.stop_timeout_secs as nat,
                ),
            }),
    {
        let name = container_name(sandbox_name);
        self.cli.stop(&name, self.config.stop_timeout_secs)
    }

    /// What became of a sandbox that was to stop.
    pub fn stop_sandbox_result(
        sandbox_name: &str,
        run: Result<String, ContainerCliError>,
    ) -> (res: Result<(), ComputeDriverError>)
        ensures
            match lookup_result(container_name_of(sandbox_name@), run_view(run)) {
                Ok(_) => res is Ok,
                Err(e) => res matches Err(x) && x@ == driver_error(e),
            },
    {
        let name = container_name(sandbox_name);
        match ContainerCli::stop_result(&name, run) {
            Ok(_) => Ok(()),
            Err(e) => Err(ComputeDriverError::from_cli(e)),
        }
    }

    /// Delete a sandbox container: the first step.
    pub fn delete_sandbox(&self, sandbox_id: &str, sandbox_name: &str) -> (res: (
        DeleteStep,
        DeleteAction,
    ))
        ensures
            (res.0, res.1@) == self.deletion(sandbox_id@, sandbox_name@).start(),
    {
        if sandbox_id.is_empty() {
            return (
                DeleteStep::Finished,
                DeleteAction::Finish(
                    Err(ComputeDriverError::Precondition("sandbox id is required".to_string())),
                ),
            );
        }
        let name = container_name(sandbox_name);
        (DeleteStep::Stop, DeleteAction::Command(self.cli.rm_stop(&name)))
    }

    /// Delete a sandbox container: the step after an answer. The result tells
    /// whether there was a container.
    pub fn delete_sandbox_next(
        &self,
        sandbox_id: &str,
        sandbox_name: &str,
        step: DeleteStep,
        answer: Answer,
    ) -> (res: (DeleteStep, DeleteAction))
        requires
            delete_awaits(step, answer@),
        ensures
            (res.0, res.1@) == self.deletion(sandbox_id@, sandbox_name@).next(step, answer@),
    {
        let name = container_name(sandbox_name);
        match (step, answer) {
            (DeleteStep::Stop, Answer::Command(_)) => (
                DeleteStep::Remove,
                DeleteAction::Command(self.cli.rm(&name)),
            ),
            (DeleteStep::Remove, Answer::Command(run)) => match ContainerCli::rm_result(
                &name,
                run,
            ) {
                Ok(_) => (
                    DeleteStep::CleanUp { existed: true },
                    DeleteAction::RemoveTokenFile { sandbox_id: sandbox_id.to_string() },
                ),
                Err(ContainerCliError::NotFound(_)) => (
                    DeleteStep::CleanUp { existed: false },
                    DeleteAction::RemoveTokenFile { sandbox_id: sandbox_id.to_string() },
                ),
                Err(e) => (
                    DeleteStep::Finished,
                    DeleteAction::Finish(Err(ComputeDriverError::from_cli(e))),
                ),
            },
            (DeleteStep::CleanUp { existed }, Answer::File(_)) => (
                DeleteStep::Finished,
                DeleteAction::Finish(Ok(existed)),
            ),
            _ => unreached(),
        }
    }
}

/// Deletion stops the container and then removes it, whatever came of stopping
/// it: it may have stopped already.
pub proof fn law_deletion_stops_then_removes(
    deletion: Deletion,
    stopped: Result<Seq<char>, ContainerCliErrorView>,
)
    requires
        deletion.sandbox_id.len() > 0,
    ensures
        deletion.start().1 == DeleteActionView::Command(deletion.stop_command()),
        deletion.next(deletion.start().0, AnswerView::Command(stopped)).1
            == DeleteActionView::Command(deletion.remove_command()),
{
}

/// A deletion leaves no token behind unless it fails: it succeeds only after the
/// removal of the token file was asked for, and then tells whether there was a
/// container. A container that is not there is no failure.
pub proof fn law_deletion_cleans_up(
    deletion: Deletion,
    removed: Result<Seq<char>, ContainerCliErrorView>,
    cleaned: Result<(), Seq<char>>,
)
    ensures
        ({
            let (step, action) = deletion.next(DeleteStep::Remove, AnswerView::Command(removed));
            match lookup_result(container_name_of(deletion.sandbox_name), removed) {
                Ok(_) => {
                    &&& action == DeleteActionView::RemoveTokenFile {
                        sandbox_id: deletion.sandbox_id,
                    }
                    &&& deletion.next(step, AnswerView::File(cleaned)).1
                        == DeleteActionView::Finish(Ok(true))
                },
                Err(ContainerCliErrorView::NotFound(_)) => {
                    &&& action == DeleteActionView::RemoveTokenFile {
                        sandbox_id: deletion.sandbox_id,
                    }
                    &&& deletion.next(step, AnswerView::File(cleaned)).1
                        == DeleteActionView::Finish(Ok(false))
                },
                Err(e) => action == DeleteActionView::Finish(Err(driver_error(e))),
            }
        }),
{
}

} // verus!
