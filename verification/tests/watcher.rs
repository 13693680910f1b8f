use openshell_apple_container::cli::ContainerCliError;
use openshell_apple_container::cli::ContainerConfiguration;
use openshell_apple_container::cli::ContainerEntry;
use openshell_apple_container::cli::ContainerStatus;
use openshell_apple_container::compute::DriverCondition;
use openshell_apple_container::compute::DriverSandbox;
use openshell_apple_container::compute::DriverSandboxStatus;
use openshell_apple_container::compute::WatchPayload;
use openshell_apple_container::compute::WatchSandboxesEvent;
use openshell_apple_container::driver::LABEL_MANAGED_BY;
use openshell_apple_container::driver::LABEL_MANAGED_BY_VALUE;
use openshell_apple_container::driver::LABEL_SANDBOX_ID;
use openshell_apple_container::driver::LABEL_SANDBOX_NAME;
use openshell_apple_container::string_map::StringMap;
use openshell_apple_container::watcher::poll_managed_sandboxes;
use openshell_apple_container::watcher::sandbox_status_eq;
use openshell_apple_container::watcher::start_watch;

fn make_sandbox(id: &str, reason: &str) -> DriverSandbox {
    DriverSandbox {
        id: id.to_string(),
        name: format!("name-{id}"),
        namespace: "default".to_string(),
        spec: None,
        status: Some(DriverSandboxStatus {
            sandbox_name: format!("name-{id}"),
            instance_id: "inst-1".to_string(),
            agent_fd: String::new(),
            sandbox_fd: String::new(),
            conditions: vec![DriverCondition {
                type_: "Ready".to_string(),
                status: "False".to_string(),
                reason: reason.to_string(),
                message: String::new(),
                last_transition_time: String::new(),
            }],
            deleting: false,
        }),
    }
}

#[test]
fn sandbox_status_eq_same() {
    let a = make_sandbox("sb-1", "Starting");
    let b = make_sandbox("sb-1", "Starting");
    assert!(sandbox_status_eq(&a, &b));
}

#[test]
fn sandbox_status_eq_different_reason() {
    let a = make_sandbox("sb-1", "Starting");
    let b = make_sandbox("sb-1", "DependenciesNotReady");
    assert!(!sandbox_status_eq(&a, &b));
}

#[test]
fn sandbox_status_eq_looks_at_what_matters() {
    let a = make_sandbox("sb-1", "Starting");
    let mut b = make_sandbox("sb-2", "Starting");
    b.status.as_mut().unwrap().conditions[0].message = "m".to_string();
    b.status.as_mut().unwrap().conditions[0].last_transition_time = "t".to_string();
    assert!(sandbox_status_eq(&a, &b) && sandbox_status_eq(&b, &a));
    b.status.as_mut().unwrap().deleting = true;
    assert!(!sandbox_status_eq(&a, &b));
    let mut c = make_sandbox("sb-1", "Starting");
    c.status.as_mut().unwrap().instance_id = "inst-2".to_string();
    assert!(!sandbox_status_eq(&a, &c));
    let mut d = make_sandbox("sb-1", "Starting");
    d.status.as_mut().unwrap().conditions.clear();
    assert!(!sandbox_status_eq(&a, &d));
    let mut e = make_sandbox("sb-1", "Starting");
    e.status.as_mut().unwrap().conditions[0].status = "True".to_string();
    assert!(!sandbox_status_eq(&a, &e));
    let mut f = make_sandbox("sb-1", "Starting");
    f.status.as_mut().unwrap().conditions[0].type_ = "Live".to_string();
    assert!(!sandbox_status_eq(&a, &f));
    let mut g = make_sandbox("sb-1", "Starting");
    g.status = None;
    assert!(!sandbox_status_eq(&a, &g));
    assert!(sandbox_status_eq(&g, &g.clone()));
}

fn container(id: &str, state: &str) -> ContainerEntry {
    named(id, id, state)
}

fn named(container: &str, id: &str, state: &str) -> ContainerEntry {
    ContainerEntry {
        id: container.to_string(),
        configuration: ContainerConfiguration {
            labels: StringMap::from_entries(vec![
                (LABEL_MANAGED_BY.to_string(), LABEL_MANAGED_BY_VALUE.to_string()),
                (LABEL_SANDBOX_ID.to_string(), id.to_string()),
                (LABEL_SANDBOX_NAME.to_string(), id.to_string()),
            ]),
            ..Default::default()
        },
        status: Some(ContainerStatus { state: state.to_string(), ..Default::default() }),
    }
}

fn told(events: &[WatchSandboxesEvent]) -> Vec<String> {
    events
        .iter()
        .map(|e| match e.payload.as_ref().unwrap() {
            WatchPayload::Sandbox(s) => {
                let sandbox = s.sandbox.as_ref().unwrap();
                let reason = &sandbox.status.as_ref().unwrap().conditions[0].reason;
                format!("{} {}", sandbox.id, reason)
            }
            WatchPayload::Deleted(d) => format!("{} gone", d.sandbox_id),
        })
        .collect()
}

fn failure<T>() -> Result<T, ContainerCliError> {
    Err(ContainerCliError::Parse("x".to_string()))
}

#[test]
fn a_watch_starts_with_what_is_there() {
    let unmanaged = ContainerEntry {
        id: "other".to_string(),
        configuration: ContainerConfiguration::default(),
        status: None,
    };
    let (state, events) =
        start_watch(Ok(vec![container("a", "running"), unmanaged, container("b", "stopped")]));
    assert_eq!(told(&events), ["a DependenciesNotReady", "b ContainerExited"]);
    assert_eq!(state.backoff_secs(), 3);
}

#[test]
fn a_watch_reports_what_changed() {
    let (mut state, _) = start_watch(Ok(vec![
        container("a", "running"),
        container("b", "created"),
        container("c", "running"),
    ]));
    let events = state.advance(Ok(vec![
        container("d", "weird"),
        container("b", "running"),
        container("c", "running"),
    ]));
    assert_eq!(told(&events), ["d Unknown", "b DependenciesNotReady", "a gone"]);
    let events = state.advance(Ok(vec![
        container("d", "weird"),
        container("b", "running"),
        container("c", "running"),
    ]));
    assert!(events.is_empty());
    let events = state.advance(Ok(vec![]));
    assert_eq!(told(&events), ["d gone", "b gone", "c gone"]);
}

#[test]
fn a_change_of_message_alone_is_not_reported() {
    let (mut state, _) = start_watch(Ok(vec![container("a", "stopped")]));
    assert!(state.advance(Ok(vec![container("a", "exited")])).is_empty());
    assert_eq!(told(&state.advance(Ok(vec![container("a", "running")]))).len(), 1);
}

#[test]
fn failures_slow_a_watch_down() {
    let (mut state, events) = start_watch(failure());
    assert!(events.is_empty());
    let mut pauses = vec![state.backoff_secs()];
    for _ in 0..5 {
        assert!(state.advance(failure()).is_empty());
        pauses.push(state.backoff_secs());
    }
    assert_eq!(pauses, [3, 6, 12, 24, 30, 30]);
    let events = state.advance(Ok(vec![container("a", "running")]));
    assert_eq!(told(&events), ["a DependenciesNotReady"]);
    assert_eq!(state.backoff_secs(), 3);
    assert!(state.advance(failure()).is_empty());
    let events = state.advance(Ok(vec![]));
    assert_eq!(told(&events), ["a gone"]);
}

#[test]
fn of_two_containers_with_one_id_the_last_counts() {
    let map = poll_managed_sandboxes(&vec![
        named("c1", "a", "running"),
        container("b", "running"),
        named("c2", "a", "stopped"),
    ]);
    assert_eq!(map.len(), 2);
    assert_eq!(map.get("a").unwrap().status.as_ref().unwrap().instance_id, "c2");
    assert_eq!(map.key_at(0), "a");
}

#[test]
fn a_subscriber_stays_in_step() {
    let rounds = vec![
        vec![container("a", "running"), container("b", "created")],
        vec![container("b", "running"), container("c", "created")],
        vec![],
        vec![container("a", "dead"), container("c", "running")],
    ];
    let (mut state, events) = start_watch(Ok(vec![container("x", "running")]));
    let mut known: Vec<DriverSandbox> = Vec::new();
    let mut pending = events;
    for round in rounds {
        pending.extend(state.advance(Ok(round.clone())));
        for event in pending.drain(..) {
            match event.payload.unwrap() {
                WatchPayload::Sandbox(s) => {
                    let sandbox = s.sandbox.unwrap();
                    known.retain(|k| k.id != sandbox.id);
                    known.push(sandbox);
                }
                WatchPayload::Deleted(d) => known.retain(|k| k.id != d.sandbox_id),
            }
        }
        let current = poll_managed_sandboxes(&round);
        assert_eq!(known.len(), current.len());
        for sandbox in &known {
            assert!(sandbox_status_eq(sandbox, current.get(&sandbox.id).unwrap()));
        }
    }
}
