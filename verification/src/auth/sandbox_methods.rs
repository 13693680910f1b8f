//! Method-level allowlist for sandbox principals.
//!
//! Gateway-minted sandbox JWTs identify a single sandbox supervisor. They
//! must not authorize user-facing or admin APIs. The router rejects sandbox
//! principals for every method outside this supervisor-to-gateway allowlist;
//! handlers still perform same-sandbox checks on request bodies.
//!
//! The allowlist is derived from proto-level `(authorization)` annotations:
//! a method is callable by a sandbox principal when its declared auth mode is
//! `sandbox` or `dual`. [`declared_sandbox_callable`] is that rule, over the
//! annotations of a gateway; [`is_sandbox_callable`] goes by the methods that
//! are named here.
use crate::text::text_eq;
use vstd::prelude::*;

verus! {

/// The auth mode that a method's `(authorization)` annotation declares.
#[derive(Debug, Clone, Copy, PartialEq, Eq, Structural)]
pub enum AuthMode {
    /// For sandbox principals.
    Sandbox,
    /// For sandbox principals and for users.
    Dual,
    /// Any other mode: for users or admins, or for callers without a credential.
    Other,
}

impl AuthMode {
    /// Whether a method with this auth mode is callable by a sandbox principal.
    pub open spec fn admits_sandbox(self) -> bool {
        self is Sandbox || self is Dual
    }
}

/// The methods named in this code that a sandbox principal may call: those that
/// supervisors use, with the one that bootstraps a sandbox credential.
pub const SANDBOX_CALLABLE_METHODS: [&'static str; 10] = [
    "/openshell.v1.OpenShell/ConnectSupervisor",
    "/openshell.v1.OpenShell/RelayStream",
    "/openshell.v1.OpenShell/PushSandboxLogs",
    "/openshell.v1.OpenShell/ReportMainProcessExit",
    "/openshell.v1.OpenShell/RefreshSandboxToken",
    "/openshell.v1.OpenShell/IssueSandboxToken",
    "/openshell.v1.OpenShell/GetSandboxConfig",
    "/openshell.v1.OpenShell/GetSandboxProviderEnvironment",
    "/openshell.v1.OpenShell/ExchangeProviderSubjectToken",
    "/openshell.inference.v1.Inference/GetInferenceBundle",
];

/// Sandbox-callable methods a `Process`-kind credential must not call.
///
/// These are the network-supervisor RPCs that read provider secrets or mint
/// upstream credentials. In the `proxy-pod` topology they run only in the
/// separate proxy pod (a `Full`-kind credential); the in-pod process supervisor
/// holds a `Process`-kind credential and is denied them, so a compromised agent
/// pod cannot reach provider secrets even though it holds a gateway credential.
pub const PROCESS_CALLER_DENIED_METHODS: [&'static str; 3] = [
    "/openshell.v1.OpenShell/GetSandboxProviderEnvironment",
    "/openshell.v1.OpenShell/ExchangeProviderSubjectToken",
    "/openshell.inference.v1.Inference/GetInferenceBundle",
];

/// Whether `path` is one of `methods`.
pub open spec fn lists(methods: Seq<&str>, path: Seq<char>) -> bool {
    exists|i: int| 0 <= i < methods.len() && (#[trigger] methods[i])@ == path
}

/// Whether `path` is one of `methods`.
fn is_listed(methods: &[&str], path: &str) -> (res: bool)
    ensures
        res == lists(methods@, path@),
{
    let mut i: usize = 0;
    while i < methods.len()
        invariant
            i <= methods@.len(),
            forall|j: int| 0 <= j < i ==> (#[trigger] methods@[j])@ != path@,
        decreases methods@.len() - i,
    {
        if text_eq(methods[i], path) {
            return true;
        }
        i += 1;
    }
    false
}

/// Whether `path` is declared with an auth mode that admits sandbox principals.
pub open spec fn declares_sandbox(declared: Seq<(String, AuthMode)>, path: Seq<char>) -> bool {
    exists|i: int|
        0 <= i < declared.len() && (#[trigger] declared[i]).0@ == path
            && declared[i].1.admits_sandbox()
}

/// Whether a sandbox principal may call `path` at all, given the auth mode that
/// each method declares: it may where that is `sandbox` or `dual`. A method that
/// declares nothing is not callable.
pub fn declared_sandbox_callable(declared: &Vec<(String, AuthMode)>, path: &str) -> (res: bool)
    ensures
        res == declares_sandbox(declared@, path@),
{
    let mut i: usize = 0;
    while i < declared.len()
        invariant
            i <= declared@.len(),
            forall|j: int|
                0 <= j < i ==> !((#[trigger] declared@[j]).0@ == path@
                    && declared@[j].1.admits_sandbox()),
        decreases declared@.len() - i,
    {
        let admits = match declared[i].1 {
            AuthMode::Sandbox | AuthMode::Dual => true,
            AuthMode::Other => false,
        };
        if admits && text_eq(&declared[i].0, path) {
            return true;
        }
        i += 1;
    }
    false
}

/// A sandbox credential authorizes no user-facing or admin method: one that
/// never declares `sandbox` or `dual` is not callable, whatever else is declared.
pub proof fn law_other_methods_are_not_sandbox_callable(
    declared: Seq<(String, AuthMode)>,
    path: Seq<char>,
)
    requires
        forall|i: int|
            0 <= i < declared.len() && (#[trigger] declared[i]).0@ == path ==> declared[i].1
                is Other,
    ensures
        !declares_sandbox(declared, path),
{
}

/// Whether the auth modes that are declared admit sandbox principals to every
/// method that is named here.
pub open spec fn admits_all_named(declared: Seq<(String, AuthMode)>) -> bool {
    forall|i: int|
        0 <= i < SANDBOX_CALLABLE_METHODS@.len() ==> declares_sandbox(
            declared,
            (#[trigger] SANDBOX_CALLABLE_METHODS@[i])@,
        )
}

/// Whether the auth modes that are declared admit sandbox principals to no method
/// but those that are named here.
pub open spec fn admits_only_named(declared: Seq<(String, AuthMode)>) -> bool {
    forall|i: int|
        0 <= i < declared.len() && (#[trigger] declared[i]).1.admits_sandbox() ==> lists(
            SANDBOX_CALLABLE_METHODS@,
            declared[i].0@,
        )
}

/// The methods named here follow the rule on declared auth modes. Where the
/// declarations admit all of them, each is callable by the rule; where they admit
/// only them, whatever is callable by the rule is one of them; where they admit
/// exactly them, to be named here and to be callable by the rule is the same.
pub proof fn law_named_methods_follow_the_declared_modes(
    declared: Seq<(String, AuthMode)>,
    path: Seq<char>,
)
    ensures
        admits_all_named(declared) && lists(SANDBOX_CALLABLE_METHODS@, path) ==> declares_sandbox(
            declared,
            path,
        ),
        admits_only_named(declared) && declares_sandbox(declared, path) ==> lists(
            SANDBOX_CALLABLE_METHODS@,
            path,
        ),
        admits_all_named(declared) && admits_only_named(declared) ==> lists(
            SANDBOX_CALLABLE_METHODS@,
            path,
        ) == declares_sandbox(declared, path),
{
}

/// Whether `path` is one of the methods named here that a sandbox principal may
/// call. Under declarations that admit sandbox principals to exactly those, that
/// is whether the declared auth mode of `path` is `sandbox` or `dual`.
///
/// `false` means only that the method is not named here: where a gateway declares
/// more, [`declared_sandbox_callable`] decides.
pub fn is_sandbox_callable(path: &str) -> (res: bool)
    ensures
        res == lists(SANDBOX_CALLABLE_METHODS@, path@),
        forall|declared: Seq<(String, AuthMode)>|
            admits_all_named(declared) && admits_only_named(declared) ==> res
                == #[trigger] declares_sandbox(declared, path@),
{
    let res = is_listed(&SANDBOX_CALLABLE_METHODS, path);
    proof {
        assert forall|declared: Seq<(String, AuthMode)>|
            admits_all_named(declared) && admits_only_named(declared) implies res
            == #[trigger] declares_sandbox(declared, path@) by {
            law_named_methods_follow_the_declared_modes(declared, path@);
        }
    }
    res
}

/// Whether `path` is denied to a `Process`-kind sandbox credential. Callers
/// apply this only after [`is_sandbox_callable`] has already passed.
#[must_use]
pub fn is_process_caller_denied(path: &str) -> (res: bool)
    ensures
        res == lists(PROCESS_CALLER_DENIED_METHODS@, path@),
{
    is_listed(&PROCESS_CALLER_DENIED_METHODS, path)
}

/// Everything denied to a process caller is still sandbox-callable: a
/// full-authority credential may call it.
pub proof fn law_denied_methods_are_sandbox_callable(path: Seq<char>)
    requires
        lists(PROCESS_CALLER_DENIED_METHODS@, path),
    ensures
        lists(SANDBOX_CALLABLE_METHODS@, path),
{
    let i = choose|i: int|
        0 <= i < PROCESS_CALLER_DENIED_METHODS@.len() && (
        #[trigger] PROCESS_CALLER_DENIED_METHODS@[i])@ == path;
    assert(SANDBOX_CALLABLE_METHODS@[i + 7]@ == path);
}

} // verus!
