use openshell_apple_container::auth::principal::Principal;
use openshell_apple_container::auth::principal::SandboxCallerKind;
use openshell_apple_container::auth::principal::SandboxIdentitySource;
use openshell_apple_container::auth::principal::SandboxPrincipal;
use openshell_apple_container::auth::principal::UserPrincipal;
use openshell_apple_container::auth::sandbox_methods::declared_sandbox_callable;
use openshell_apple_container::auth::sandbox_methods::is_process_caller_denied;
use openshell_apple_container::auth::sandbox_methods::is_sandbox_callable;
use openshell_apple_container::auth::sandbox_methods::AuthMode;
use openshell_apple_container::auth::sandbox_methods::PROCESS_CALLER_DENIED_METHODS;
use openshell_apple_container::auth::sandbox_methods::SANDBOX_CALLABLE_METHODS;

#[test]
fn process_caller_is_denied_network_supervisor_rpcs() {
    for path in PROCESS_CALLER_DENIED_METHODS {
        assert!(is_process_caller_denied(path), "{path}");
        // Everything denied to a process caller must still be sandbox-callable
        // at all (a full-authority credential may call it).
        assert!(is_sandbox_callable(path), "{path}");
    }
}

#[test]
fn process_caller_keeps_control_plane_rpcs() {
    for path in [
        "/openshell.v1.OpenShell/ConnectSupervisor",
        "/openshell.v1.OpenShell/RelayStream",
        "/openshell.v1.OpenShell/PushSandboxLogs",
        "/openshell.v1.OpenShell/ReportMainProcessExit",
        "/openshell.v1.OpenShell/RefreshSandboxToken",
        "/openshell.v1.OpenShell/GetSandboxConfig",
    ] {
        assert!(!is_process_caller_denied(path), "{path}");
    }
}

#[test]
fn supervisor_callbacks_are_allowed() {
    assert!(is_sandbox_callable("/openshell.v1.OpenShell/ConnectSupervisor"));
    assert!(is_sandbox_callable("/openshell.v1.OpenShell/RelayStream"));
    assert!(is_sandbox_callable("/openshell.v1.OpenShell/GetSandboxConfig"));
    assert!(is_sandbox_callable("/openshell.inference.v1.Inference/GetInferenceBundle"));
    assert!(is_sandbox_callable("/openshell.v1.OpenShell/ExchangeProviderSubjectToken"));
}

#[test]
fn user_and_admin_methods_are_not_allowed() {
    assert!(!is_sandbox_callable("/openshell.v1.OpenShell/ListSandboxes"));
    assert!(!is_sandbox_callable("/openshell.v1.OpenShell/DeleteSandbox"));
    assert!(!is_sandbox_callable("/openshell.v1.OpenShell/StopSandbox"));
    assert!(!is_sandbox_callable("/openshell.v1.OpenShell/StartSandbox"));
    assert!(!is_sandbox_callable("/openshell.v1.OpenShell/CreateProvider"));
    assert!(!is_sandbox_callable("/openshell.v1.OpenShell/ApproveDraftChunk"));
    assert!(!is_sandbox_callable("/openshell.inference.v1.Inference/GetInferenceRoute"));
    assert!(!is_sandbox_callable("/openshell.inference.v1.Inference/SetInferenceRoute"));
}

#[test]
fn a_path_is_matched_whole() {
    assert!(!is_sandbox_callable(""));
    assert!(!is_sandbox_callable("/openshell.v1.OpenShell/RelayStream/"));
    assert!(!is_sandbox_callable("/openshell.v1.OpenShell/relaystream"));
    assert!(!is_process_caller_denied("GetInferenceBundle"));
}

fn principal(source: SandboxIdentitySource) -> SandboxPrincipal {
    SandboxPrincipal { sandbox_id: "sb-1".to_string(), source, trust_domain: None }
}

#[test]
fn only_a_jwt_is_scoped() {
    for kind in [SandboxCallerKind::Full, SandboxCallerKind::Process] {
        let jwt = SandboxIdentitySource::BootstrapJwt {
            issuer: "gw".to_string(),
            caller_kind: kind,
        };
        assert_eq!(principal(jwt).caller_kind(), kind);
    }
    let cert = SandboxIdentitySource::BootstrapCert { fingerprint: "f".to_string() };
    assert_eq!(principal(cert).caller_kind(), SandboxCallerKind::Full);
    let account = SandboxIdentitySource::K8sServiceAccount {
        pod_name: "p".to_string(),
        pod_uid: "u".to_string(),
    };
    assert_eq!(principal(account).caller_kind(), SandboxCallerKind::Full);
    assert_eq!(SandboxCallerKind::default(), SandboxCallerKind::Full);
}

#[test]
fn principals_carry_their_identity() {
    let user: Principal<u32> = Principal::User(UserPrincipal { identity: 7 });
    assert!(matches!(user, Principal::User(UserPrincipal { identity: 7 })));
    let anonymous: Principal<u32> = Principal::Anonymous;
    assert!(matches!(anonymous, Principal::Anonymous));
}

#[test]
fn a_sandbox_may_bootstrap_its_credential() {
    let path = "/openshell.v1.OpenShell/IssueSandboxToken";
    assert!(is_sandbox_callable(path));
    assert!(!is_process_caller_denied(path));
}

#[test]
fn every_method_named_here_is_callable() {
    assert_eq!(SANDBOX_CALLABLE_METHODS.len(), 10);
    for path in SANDBOX_CALLABLE_METHODS {
        assert!(is_sandbox_callable(path), "{path}");
    }
}

#[test]
fn the_declared_mode_decides() {
    let declared = vec![
        ("/s/Relay".to_string(), AuthMode::Sandbox),
        ("/s/Config".to_string(), AuthMode::Dual),
        ("/s/List".to_string(), AuthMode::Other),
    ];
    assert!(declared_sandbox_callable(&declared, "/s/Relay"));
    assert!(declared_sandbox_callable(&declared, "/s/Config"));
    assert!(!declared_sandbox_callable(&declared, "/s/List"));
    assert!(!declared_sandbox_callable(&declared, "/s/Unknown"));
    assert!(!declared_sandbox_callable(&declared, "/s/relay"));
    assert!(!declared_sandbox_callable(&Vec::new(), "/s/Relay"));
}

#[test]
fn the_named_methods_follow_the_declared_modes() {
    let mut declared: Vec<(String, AuthMode)> = SANDBOX_CALLABLE_METHODS
        .iter()
        .enumerate()
        .map(|(i, path)| {
            (path.to_string(), if i % 2 == 0 { AuthMode::Sandbox } else { AuthMode::Dual })
        })
        .collect();
    declared.push(("/openshell.v1.OpenShell/ListSandboxes".to_string(), AuthMode::Other));
    for path in SANDBOX_CALLABLE_METHODS
        .into_iter()
        .chain(["/openshell.v1.OpenShell/ListSandboxes", "/openshell.v1.OpenShell/Unheard", ""])
    {
        assert_eq!(is_sandbox_callable(path), declared_sandbox_callable(&declared, path), "{path}");
    }
    declared.push(("/openshell.v1.OpenShell/Unheard".to_string(), AuthMode::Dual));
    assert!(declared_sandbox_callable(&declared, "/openshell.v1.OpenShell/Unheard"));
    assert!(!is_sandbox_callable("/openshell.v1.OpenShell/Unheard"));
}
