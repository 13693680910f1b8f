//! Laws on errors, on the statuses that answer requests, and on who may call.
use crate::auth::principal::SandboxCallerKind;
use crate::auth::principal::SandboxIdentitySource;
use crate::auth::principal::SandboxPrincipal;
use crate::auth::sandbox_methods::declared_sandbox_callable;
use crate::auth::sandbox_methods::is_process_caller_denied;
use crate::auth::sandbox_methods::is_sandbox_callable;
use crate::auth::sandbox_methods::AuthMode;
use crate::auth::sandbox_methods::PROCESS_CALLER_DENIED_METHODS;
use crate::auth::sandbox_methods::SANDBOX_CALLABLE_METHODS;
use crate::error::no_supervisor_session_message;
use crate::error::ComputeDriverError;
use crate::error::Error;
use crate::error::RpcStatus;
use vstd::prelude::*;

verus! {

/// A request that failed is answered with the code of its failure and with what
/// there is to say of it.
pub proof fn law_failures_are_answered_by_kind(e: ComputeDriverError, res: RpcStatus)
    requires
        call_ensures(ComputeDriverError::into_status, (e,), res),
    ensures
        match e {
            ComputeDriverError::AlreadyExists => res.code == 6 && res.message@
                == "sandbox already exists"@,
            ComputeDriverError::NotFound => res.code == 5 && res.message@ == "sandbox not found"@,
            ComputeDriverError::InvalidArgument(m) => res.code == 3 && res.message@ == m@,
            ComputeDriverError::Precondition(m) => res.code == 9 && res.message@ == m@,
            ComputeDriverError::Message(m) => res.code == 13 && res.message@ == m@,
        },
{
}

/// An error reads as the status message that answers for it.
pub proof fn law_errors_read_as_they_are_answered(
    e: ComputeDriverError,
    text: String,
    status: RpcStatus,
)
    requires
        call_ensures(ComputeDriverError::to_text, (&e,), text),
        call_ensures(ComputeDriverError::into_status, (e,), status),
    ensures
        text@ == status.message@,
{
}

/// An error reads as its kind, followed by its message.
pub proof fn law_errors_read_as_kind_and_message(e: Error, res: String)
    requires
        call_ensures(Error::to_text, (&e,), res),
    ensures
        match e {
            Error::Config { message } => res@ == "configuration error: "@ + message@,
            Error::Io { source } => res@ == "I/O error: "@ + source.message@,
            Error::Tls { message } => res@ == "TLS error: "@ + message@,
            Error::Transport { message } => res@ == "transport error: "@ + message@,
            Error::Execution { message } => res@ == "execution error: "@ + message@,
            Error::Process { message } => res@ == "process error: "@ + message@,
            Error::Timeout => res@ == "operation timed out"@,
        },
{
}

/// The code of an error goes by its kind alone.
pub proof fn law_errors_are_coded_by_kind(e: Error, res: &'static str)
    requires
        call_ensures(Error::diagnostic_code, (&e,), res),
    ensures
        match e {
            Error::Config { .. } => res@ == "openshell::config"@,
            Error::Io { .. } => res@ == "openshell::io"@,
            Error::Tls { .. } => res@ == "openshell::tls"@,
            Error::Transport { .. } => res@ == "openshell::transport"@,
            Error::Execution { .. } => res@ == "openshell::execution"@,
            Error::Process { .. } => res@ == "openshell::process"@,
            Error::Timeout => res@ == "openshell::timeout"@,
        },
{
}

/// The message about a sandbox without a session says why, and ends in the marker
/// by which it is detected.
pub proof fn law_no_session_is_explained_and_marked(res: String)
    requires
        call_ensures(no_supervisor_session_message, (), res),
    ensures
        res@
            == "this sandbox's topology runs no supervisor inside the sandbox, so SSH, exec, port forwarding, and file transfer are unavailable. Policy-enforced network egress is unaffected. Use the `combined`, `sidecar`, or `cni-sidecar` topology when interactive sessions are required. ["@
            + "openshell:no-supervisor-session"@ + "]"@,
{
}

/// Only a JWT can narrow a sandbox's authority, and then says which it is; every
/// other source has full authority.
pub proof fn law_only_a_jwt_narrows_authority(principal: SandboxPrincipal, res: SandboxCallerKind)
    requires
        call_ensures(SandboxPrincipal::caller_kind, (&principal,), res),
    ensures
        match principal.source {
            SandboxIdentitySource::BootstrapJwt { issuer: _, caller_kind } => res == caller_kind,
            _ => res is Full,
        },
{
}

/// A sandbox may call a method if and only if the method declares `sandbox` or
/// `dual`.
pub proof fn law_declared_modes_decide(
    declared: Vec<(String, AuthMode)>,
    path: &str,
    res: bool,
)
    requires
        call_ensures(declared_sandbox_callable, (&declared, path), res),
    ensures
        res <==> exists|i: int|
            0 <= i < declared@.len() && (#[trigger] declared@[i]).0@ == path@ && (declared@[i].1
                is Sandbox || declared@[i].1 is Dual),
{
}

/// The methods that are callable by name are those of the supervisor (its
/// connection, relays, logs, exit report, token and configuration), the one that
/// bootstraps its credential, and the three that a process caller is denied.
pub proof fn law_named_methods_are_callable(path: &str, res: bool)
    requires
        call_ensures(is_sandbox_callable, (path,), res),
    ensures
        res <==> {
            ||| path@ == "/openshell.v1.OpenShell/ConnectSupervisor"@
            ||| path@ == "/openshell.v1.OpenShell/RelayStream"@
            ||| path@ == "/openshell.v1.OpenShell/PushSandboxLogs"@
            ||| path@ == "/openshell.v1.OpenShell/ReportMainProcessExit"@
            ||| path@ == "/openshell.v1.OpenShell/RefreshSandboxToken"@
            ||| path@ == "/openshell.v1.OpenShell/IssueSandboxToken"@
            ||| path@ == "/openshell.v1.OpenShell/GetSandboxConfig"@
            ||| path@ == "/openshell.v1.OpenShell/GetSandboxProviderEnvironment"@
            ||| path@ == "/openshell.v1.OpenShell/ExchangeProviderSubjectToken"@
            ||| path@ == "/openshell.inference.v1.Inference/GetInferenceBundle"@
        },
{
    let named = SANDBOX_CALLABLE_METHODS@;
    assert(named.len() == 10);
    assert(named[0]@ == "/openshell.v1.OpenShell/ConnectSupervisor"@);
    assert(named[1]@ == "/openshell.v1.OpenShell/RelayStream"@);
    assert(named[2]@ == "/openshell.v1.OpenShell/PushSandboxLogs"@);
    assert(named[3]@ == "/openshell.v1.OpenShell/ReportMainProcessExit"@);
    assert(named[4]@ == "/openshell.v1.OpenShell/RefreshSandboxToken"@);
    assert(named[5]@ == "/openshell.v1.OpenShell/IssueSandboxToken"@);
    assert(named[6]@ == "/openshell.v1.OpenShell/GetSandboxConfig"@);
    assert(named[7]@ == "/openshell.v1.OpenShell/GetSandboxProviderEnvironment"@);
    assert(named[8]@ == "/openshell.v1.OpenShell/ExchangeProviderSubjectToken"@);
    assert(named[9]@ == "/openshell.inference.v1.Inference/GetInferenceBundle"@);
}

/// A process caller is denied exactly the three methods that read provider secrets
/// or mint upstream credentials.
pub proof fn law_process_callers_are_denied_three_methods(path: &str, res: bool)
    requires
        call_ensures(is_process_caller_denied, (path,), res),
    ensures
        res <==> path@ == "/openshell.v1.OpenShell/GetSandboxProviderEnvironment"@ || path@
            == "/openshell.v1.OpenShell/ExchangeProviderSubjectToken"@ || path@
            == "/openshell.inference.v1.Inference/GetInferenceBundle"@,
{
    let denied = PROCESS_CALLER_DENIED_METHODS@;
    assert(denied.len() == 3);
    assert(denied[0]@ == "/openshell.v1.OpenShell/GetSandboxProviderEnvironment"@);
    assert(denied[1]@ == "/openshell.v1.OpenShell/ExchangeProviderSubjectToken"@);
    assert(denied[2]@ == "/openshell.inference.v1.Inference/GetInferenceBundle"@);
}

} // verus!
