//! The messages of the compute driver protocol, as far as the driver reads or
//! writes them.
use crate::string_map::StringMap;
use vstd::prelude::*;

verus! {

/// What a driver can do.
#[derive(Debug)]
pub struct GetCapabilitiesResponse {
    /// Name of the driver.
    pub driver_name: String,
    /// Version of the gateway that the driver runs in.
    pub driver_version: String,
    /// Image of a sandbox whose template names none.
    pub default_image: String,
    /// Whether sandboxes can have a GPU.
    pub supports_gpu: bool,
}

/// A sandbox, as the gateway asks for it or as the driver observes it.
#[derive(Debug)]
pub struct DriverSandbox {
    /// Stable id.
    pub id: String,
    /// Name.
    pub name: String,
    /// Namespace.
    pub namespace: String,
    /// What was asked for.
    pub spec: Option<DriverSandboxSpec>,
    /// What was observed.
    pub status: Option<DriverSandboxStatus>,
}

/// What is asked of a sandbox.
#[derive(Debug)]
pub struct DriverSandboxSpec {
    /// Environment variables.
    pub environment: StringMap<String>,
    /// Template to build the sandbox from.
    pub template: Option<DriverSandboxTemplate>,
    /// Whether the sandbox needs a GPU.
    pub gpu: bool,
    /// Credential that the sandbox presents to the gateway; empty for none.
    pub sandbox_token: String,
}

/// Template of a sandbox.
#[derive(Debug)]
pub struct DriverSandboxTemplate {
    /// Image to run.
    pub image: String,
    /// Environment variables.
    pub environment: StringMap<String>,
}

/// What was observed of a sandbox.
#[derive(Debug)]
pub struct DriverSandboxStatus {
    /// Name under which the platform knows the sandbox.
    pub sandbox_name: String,
    /// Id under which the platform knows the sandbox.
    pub instance_id: String,
    /// Descriptor of the agent.
    pub agent_fd: String,
    /// Descriptor of the sandbox.
    pub sandbox_fd: String,
    /// Conditions.
    pub conditions: Vec<DriverCondition>,
    /// Whether the sandbox is being deleted.
    pub deleting: bool,
}

/// One condition of a sandbox.
#[derive(Debug)]
pub struct DriverCondition {
    /// What the condition is about.
    pub type_: String,
    /// Whether it holds: `True`, `False` or `Unknown`.
    pub status: String,
    /// Why, as one word.
    pub reason: String,
    /// Why, as prose.
    pub message: String,
    /// When that last changed.
    pub last_transition_time: String,
}

/// One event of a watch.
#[derive(Debug)]
pub struct WatchSandboxesEvent {
    /// What happened.
    pub payload: Option<WatchPayload>,
}

/// What happened to a sandbox.
#[derive(Debug)]
pub enum WatchPayload {
    /// The sandbox is there, or it changed.
    Sandbox(WatchSandboxesSandboxEvent),
    /// The sandbox is gone.
    Deleted(WatchSandboxesDeletedEvent),
}

/// A sandbox is there, or it changed.
#[derive(Debug)]
pub struct WatchSandboxesSandboxEvent {
    /// The sandbox.
    pub sandbox: Option<DriverSandbox>,
}

/// A sandbox is gone.
#[derive(Debug)]
pub struct WatchSandboxesDeletedEvent {
    /// Its id.
    pub sandbox_id: String,
}

/// The keys and values of a map of strings, in order.
pub open spec fn pairs(m: StringMap<String>) -> Seq<(Seq<char>, Seq<char>)> {
    m.entries().map_values(|e: (Seq<char>, String)| (e.0, e.1@))
}

/// A [`DriverSandbox`] in contracts.
#[verifier::ext_equal]
pub struct DriverSandboxView {
    /// Stable id.
    pub id: Seq<char>,
    /// Name.
    pub name: Seq<char>,
    /// Namespace.
    pub namespace: Seq<char>,
    /// What was asked for.
    pub spec: Option<DriverSandboxSpecView>,
    /// What was observed.
    pub status: Option<DriverSandboxStatusView>,
}

/// A [`DriverSandboxSpec`] in contracts.
#[verifier::ext_equal]
pub struct DriverSandboxSpecView {
    /// Environment variables.
    pub environment: Seq<(Seq<char>, Seq<char>)>,
    /// Template to build the sandbox from.
    pub template: Option<DriverSandboxTemplateView>,
    /// Whether the sandbox needs a GPU.
    pub gpu: bool,
    /// Credential that the sandbox presents to the gateway; empty for none.
    pub sandbox_token: Seq<char>,
}

/// A [`DriverSandboxTemplate`] in contracts.
#[verifier::ext_equal]
pub struct DriverSandboxTemplateView {
    /// Image to run.
    pub image: Seq<char>,
    /// Environment variables.
    pub environment: Seq<(Seq<char>, Seq<char>)>,
}

/// A [`DriverSandboxStatus`] in contracts.
#[verifier::ext_equal]
pub struct DriverSandboxStatusView {
    /// Name under which the platform knows the sandbox.
    pub sandbox_name: Seq<char>,
    /// Id under which the platform knows the sandbox.
    pub instance_id: Seq<char>,
    /// Descriptor of the agent.
    pub agent_fd: Seq<char>,
    /// Descriptor of the sandbox.
    pub sandbox_fd: Seq<char>,
    /// Conditions.
    pub conditions: Seq<DriverConditionView>,
    /// Whether the sandbox is being deleted.
    pub deleting: bool,
}

/// A [`DriverCondition`] in contracts.
#[verifier::ext_equal]
pub struct DriverConditionView {
    /// What the condition is about.
    pub type_: Seq<char>,
    /// Whether it holds: `True`, `False` or `Unknown`.
    pub status: Seq<char>,
    /// Why, as one word.
    pub reason: Seq<char>,
    /// Why, as prose.
    pub message: Seq<char>,
    /// When that last changed.
    pub last_transition_time: Seq<char>,
}

/// A [`WatchSandboxesEvent`] that names a sandbox, in contracts.
#[verifier::ext_equal]
pub enum WatchEventView {
    /// The sandbox is there, or it changed.
    Sandbox(DriverSandboxView),
    /// The sandbox with this id is gone.
    Deleted(Seq<char>),
    /// The event says nothing.
    Empty,
}

impl View for DriverCondition {
    type V = DriverConditionView;

    open spec fn view(&self) -> DriverConditionView {
        DriverConditionView {
            type_: self.type_@,
            status: self.status@,
            reason: self.reason@,
            message: self.message@,
            last_transition_time: self.last_transition_time@,
        }
    }
}

impl View for DriverSandboxStatus {
    type V = DriverSandboxStatusView;

    open spec fn view(&self) -> DriverSandboxStatusView {
        DriverSandboxStatusView {
            sandbox_name: self.sandbox_name@,
            instance_id: self.instance_id@,
            agent_fd: self.agent_fd@,
            sandbox_fd: self.sandbox_fd@,
            conditions: self.conditions@.map_values(|c: DriverCondition| c@),
            deleting: self.deleting,
        }
    }
}

impl View for DriverSandboxTemplate {
    type V = DriverSandboxTemplateView;

    open spec fn view(&self) -> DriverSandboxTemplateView {
        DriverSandboxTemplateView { image: self.image@, environment: pairs(self.environment) }
    }
}

impl View for DriverSandboxSpec {
    type V = DriverSandboxSpecView;

    open spec fn view(&self) -> DriverSandboxSpecView {
        DriverSandboxSpecView {
            environment: pairs(self.environment),
            template: match self.template {
                Some(t) => Some(t@),
                None => None,
            },
            gpu: self.gpu,
            sandbox_token: self.sandbox_token@,
        }
    }
}

impl View for DriverSandbox {
    type V = DriverSandboxView;

    open spec fn view(&self) -> DriverSandboxView {
        DriverSandboxView {
            id: self.id@,
            name: self.name@,
            namespace: self.namespace@,
            spec: match self.spec {
                Some(s) => Some(s@),
                None => None,
            },
            status: match self.status {
                Some(s) => Some(s@),
                None => None,
            },
        }
    }
}

impl View for WatchSandboxesEvent {
    type V = WatchEventView;

    open spec fn view(&self) -> WatchEventView {
        match self.payload {
            Some(WatchPayload::Sandbox(e)) => match e.sandbox {
                Some(s) => WatchEventView::Sandbox(s@),
                None => WatchEventView::Empty,
            },
            Some(WatchPayload::Deleted(e)) => WatchEventView::Deleted(e.sandbox_id@),
            None => WatchEventView::Empty,
        }
    }
}

impl Clone for DriverCondition {
    fn clone(&self) -> (res: Self)
        ensures
            res@ == self@,
    {
        DriverCondition {
            type_: self.type_.clone(),
            status: self.status.clone(),
            reason: self.reason.clone(),
            message: self.message.clone(),
            last_transition_time: self.last_transition_time.clone(),
        }
    }
}

impl Clone for DriverSandboxStatus {
    fn clone(&self) -> (res: Self)
        ensures
            res@ == self@,
    {
        let mut conditions: Vec<DriverCondition> = Vec::new();
        let mut i: usize = 0;
        while i < self.conditions.len()
            invariant
                i <= self.conditions@.len(),
                conditions@.len() == i,
                forall|j: int| 0 <= j < i ==> (#[trigger] conditions@[j])@ == self.conditions@[j]@,
            decreases self.conditions@.len() - i,
        {
            conditions.push(self.conditions[i].clone());
            i += 1;
        }
        let res = DriverSandboxStatus {
            sandbox_name: self.sandbox_name.clone(),
            instance_id: self.instance_id.clone(),
            agent_fd: self.agent_fd.clone(),
            sandbox_fd: self.sandbox_fd.clone(),
            conditions,
            deleting: self.deleting,
        };
        proof {
            assert(res@.conditions =~= self@.conditions);
        }
        res
    }
}

/// A copy of a map of strings.
fn clone_map(m: &StringMap<String>) -> (res: StringMap<String>)
    ensures
        pairs(res) == pairs(*m),
{
    let res = m.clone();
    proof {
        assert(pairs(res) =~= pairs(*m));
    }
    res
}

impl Clone for DriverSandboxTemplate {
    fn clone(&self) -> (res: Self)
        ensures
            res@ == self@,
    {
        DriverSandboxTemplate {
            image: self.image.clone(),
            environment: clone_map(&self.environment),
        }
    }
}

impl Clone for DriverSandboxSpec {
    fn clone(&self) -> (res: Self)
        ensures
            res@ == self@,
    {
        DriverSandboxSpec {
            environment: clone_map(&self.environment),
            template: match &self.template {
                Some(t) => Some(t.clone()),
                None => None,
            },
            gpu: self.gpu,
            sandbox_token: self.sandbox_token.clone(),
        }
    }
}

impl Clone for DriverSandbox {
    fn clone(&self) -> (res: Self)
        ensures
            res@ == self@,
    {
        DriverSandbox {
            id: self.id.clone(),
            name: self.name.clone(),
            namespace: self.namespace.clone(),
            spec: match &self.spec {
                Some(s) => Some(s.clone()),
                None => None,
            },
            status: match &self.status {
                Some(s) => Some(s.clone()),
                None => None,
            },
        }
    }
}

} // verus!
