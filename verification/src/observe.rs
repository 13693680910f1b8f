//! Reading containers as sandboxes.
use crate::cli::CliCommand;
use crate::cli::CliCommandView;
use crate::cli::ContainerCliError;
use crate::cli::ContainerEntry;
use crate::cli::EntryView;
use crate::compute::DriverCondition;
use crate::compute::DriverConditionView;
use crate::compute::DriverSandbox;
use crate::compute::DriverSandboxStatus;
use crate::compute::DriverSandboxStatusView;
use crate::compute::DriverSandboxView;
use crate::config::AppleContainerComputeConfig;
use crate::driver::container_name;
use crate::driver::container_name_of;
use crate::driver::driver_error;
use crate::driver::management_labels;
use crate::driver::AppleContainerComputeDriver;
use crate::driver::LABEL_MANAGED_BY;
use crate::driver::LABEL_MANAGED_BY_VALUE;
use crate::driver::LABEL_SANDBOX_ID;
use crate::driver::LABEL_SANDBOX_NAME;
use crate::driver::LABEL_SANDBOX_NAMESPACE;
use crate::error::ComputeDriverError;
use crate::error::ComputeDriverErrorView;
use crate::text::ascii_lower;
use crate::text::lemma_text_le_antisymmetric;
use crate::text::lemma_text_le_total;
use crate::text::lemma_text_le_transitive;
use crate::text::text_at_most;
use crate::text::text_eq;
use crate::text::text_le;
use vstd::prelude::*;

verus! {

/// Whether a container is managed by OpenShell.
pub open spec fn is_managed(entry: EntryView) -> bool {
    &&& entry.labels.contains_key(LABEL_MANAGED_BY@)
    &&& entry.labels[LABEL_MANAGED_BY@] == LABEL_MANAGED_BY_VALUE@
}

/// Check if a container entry is managed by OpenShell.
pub fn is_managed_entry(entry: &ContainerEntry) -> (res: bool)
    ensures
        res == is_managed(entry@),
{
    match entry.configuration.labels.get(LABEL_MANAGED_BY) {
        Some(v) => text_eq(v, LABEL_MANAGED_BY_VALUE),
        None => false,
    }
}

/// Why a sandbox whose container is in this state is not ready, as one word.
/// The case of the state does not matter.
pub open spec fn reason_of_state(state: Seq<char>) -> Seq<char> {
    let lower = ascii_lower(state);
    if lower == "running"@ {
        "DependenciesNotReady"@
    } else if lower == "created"@ || lower == "starting"@ {
        "Starting"@
    } else if lower == "exited"@ || lower == "stopped"@ || lower == "dead"@ {
        "ContainerExited"@
    } else {
        "Unknown"@
    }
}

/// The condition of a sandbox whose container is in this state. A running
/// container is not ready yet: its supervisor has to connect first.
pub open spec fn condition_of_state(state: Seq<char>) -> DriverConditionView {
    DriverConditionView {
        type_: "Ready"@,
        status: "False"@,
        reason: reason_of_state(state),
        message: if ascii_lower(state) == "running"@ {
            "Container is running, waiting for supervisor"@
        } else {
            "Container state: "@ + state
        },
        last_transition_time: Seq::empty(),
    }
}

/// Derive a `DriverCondition` from Apple Container state string.
pub fn condition_from_state(state: &str) -> (res: DriverCondition)
    ensures
        res@ == condition_of_state(state@),
{
    let lower = state.to_ascii_lowercase();
    let running = text_eq(&lower, "running");
    let reason = if running {
        "DependenciesNotReady"
    } else if text_eq(&lower, "created") || text_eq(&lower, "starting") {
        "Starting"
    } else if text_eq(&lower, "exited") || text_eq(&lower, "stopped") || text_eq(&lower, "dead") {
        "ContainerExited"
    } else {
        "Unknown"
    };
    let message = if running {
        "Container is running, waiting for supervisor".to_string()
    } else {
        "Container state: ".to_string().concat(state)
    };
    DriverCondition {
        type_: "Ready".to_string(),
        status: "False".to_string(),
        reason: reason.to_string(),
        message,
        last_transition_time: String::new(),
    }
}

/// The driver itself never reports a sandbox as ready: that is for the gateway,
/// once the supervisor has connected.
pub proof fn law_no_state_is_ready(state: Seq<char>)
    ensures
        condition_of_state(state).type_ == "Ready"@,
        condition_of_state(state).status == "False"@,
        condition_of_state(state).status != "True"@,
{
    reveal_strlit("False");
    reveal_strlit("True");
    assert("False"@.len() != "True"@.len());
}

/// The case of the state does not matter for the reason.
pub proof fn law_state_case_does_not_matter(a: Seq<char>, b: Seq<char>)
    requires
        ascii_lower(a) == ascii_lower(b),
    ensures
        reason_of_state(a) == reason_of_state(b),
{
}

/// The state of a container: `unknown` where its runtime status is missing.
pub open spec fn state_of(entry: EntryView) -> Seq<char> {
    match entry.state {
        Some(state) => state,
        None => "unknown"@,
    }
}

/// The sandbox that a container is, if it is one: it is managed and carries an
/// id and a name.
pub open spec fn sandbox_of(entry: EntryView) -> Option<DriverSandboxView> {
    if is_managed(entry) && entry.labels.contains_key(LABEL_SANDBOX_ID@)
        && entry.labels.contains_key(LABEL_SANDBOX_NAME@) {
        Some(
            DriverSandboxView {
                id: entry.labels[LABEL_SANDBOX_ID@],
                name: entry.labels[LABEL_SANDBOX_NAME@],
                namespace: if entry.labels.contains_key(LABEL_SANDBOX_NAMESPACE@) {
                    entry.labels[LABEL_SANDBOX_NAMESPACE@]
                } else {
                    "default"@
                },
                spec: None,
                status: Some(
                    DriverSandboxStatusView {
                        sandbox_name: entry.id,
                        instance_id: entry.id,
                        agent_fd: Seq::empty(),
                        sandbox_fd: Seq::empty(),
                        conditions: seq![condition_of_state(state_of(entry))],
                        deleting: false,
                    },
                ),
            },
        )
    } else {
        None
    }
}

/// An optional sandbox in contracts.
pub open spec fn sandbox_view(sandbox: Option<DriverSandbox>) -> Option<DriverSandboxView> {
    match sandbox {
        Some(s) => Some(s@),
        None => None,
    }
}

/// Convert an Apple Container entry (from list or inspect) into a `DriverSandbox`.
pub fn driver_sandbox_from_entry(entry: &ContainerEntry) -> (res: Option<DriverSandbox>)
    ensures
        sandbox_view(res) == sandbox_of(entry@),
{
    if !is_managed_entry(entry) {
        return None;
    }
    let labels = &entry.configuration.labels;
    let id = match labels.get(LABEL_SANDBOX_ID) {
        Some(v) => v.clone(),
        None => {
            return None;
        },
    };
    let name = match labels.get(LABEL_SANDBOX_NAME) {
        Some(v) => v.clone(),
        None => {
            return None;
        },
    };
    let namespace = match labels.get(LABEL_SANDBOX_NAMESPACE) {
        Some(v) => v.clone(),
        None => "default".to_string(),
    };
    let condition = match &entry.status {
        Some(status) => condition_from_state(&status.state),
        None => condition_from_state("unknown"),
    };
    let mut conditions: Vec<DriverCondition> = Vec::new();
    conditions.push(condition);
    let status = DriverSandboxStatus {
        sandbox_name: entry.id.clone(),
        instance_id: entry.id.clone(),
        agent_fd: String::new(),
        sandbox_fd: String::new(),
        conditions,
        deleting: false,
    };
    proof {
        assert(status@.conditions =~= seq![condition_of_state(state_of(entry@))]);
    }
    Some(DriverSandbox { id, name, namespace, spec: None, status: Some(status) })
}

/// What a created sandbox's labels say is read back from its container: a
/// container that carries the labels of a sandbox is that sandbox, with its id,
/// its name and the configured namespace.
pub proof fn law_labels_are_read_back(
    config: AppleContainerComputeConfig,
    sandbox: DriverSandboxView,
    entry: EntryView,
)
    requires
        forall|i: int|
            0 <= i < 4 ==> entry.labels.contains_pair(
                (#[trigger] management_labels(config, sandbox)[i]).0,
                management_labels(config, sandbox)[i].1,
            ),
    ensures
        sandbox_of(entry) matches Some(read) && read.id == sandbox.id && read.name == sandbox.name
            && read.namespace == config.sandbox_namespace@,
{
    let labels = management_labels(config, sandbox);
    assert(labels[0] == (LABEL_MANAGED_BY@, LABEL_MANAGED_BY_VALUE@));
    assert(labels[1] == (LABEL_SANDBOX_ID@, sandbox.id));
    assert(labels[2] == (LABEL_SANDBOX_NAME@, sandbox.name));
    assert(labels[3] == (LABEL_SANDBOX_NAMESPACE@, config.sandbox_namespace@));
}

/// The sandboxes among a list of containers, in the order of the list.
pub open spec fn sandboxes_among(entries: Seq<EntryView>) -> Seq<DriverSandboxView>
    decreases entries.len(),
{
    if entries.len() == 0 {
        Seq::empty()
    } else {
        let before = sandboxes_among(entries.drop_last());
        match sandbox_of(entries.last()) {
            Some(sandbox) => before.push(sandbox),
            None => before,
        }
    }
}

/// The entries of a list of containers in contracts.
pub open spec fn entry_views(entries: Seq<ContainerEntry>) -> Seq<EntryView> {
    entries.map_values(|e: ContainerEntry| e@)
}

/// The sandboxes of a list in contracts.
pub open spec fn sandbox_views(sandboxes: Seq<DriverSandbox>) -> Seq<DriverSandboxView> {
    sandboxes.map_values(|s: DriverSandbox| s@)
}

/// The order of a listing: by name, then by id.
pub open spec fn listed_before(a: DriverSandboxView, b: DriverSandboxView) -> bool {
    if a.name == b.name {
        text_le(a.id, b.id)
    } else {
        text_le(a.name, b.name)
    }
}

/// Whether `sorted` is `list` rearranged by `order`, sorted, with sandboxes that
/// the order of a listing does not tell apart left in their order.
pub open spec fn sorted_by(
    list: Seq<DriverSandboxView>,
    sorted: Seq<DriverSandboxView>,
    order: Seq<int>,
) -> bool {
    &&& order.len() == list.len()
    &&& sorted.len() == list.len()
    &&& order.no_duplicates()
    &&& forall|i: int|
        0 <= i < order.len() ==> 0 <= #[trigger] order[i] < list.len() && sorted[i]
            == list[order[i]]
    &&& forall|i: int, j: int|
        0 <= i < j < sorted.len() ==> {
            &&& listed_before(#[trigger] sorted[i], #[trigger] sorted[j])
            &&& listed_before(sorted[j], sorted[i]) ==> order[i] < order[j]
        }
}

/// Whether `sorted` is the listing of `list`.
pub open spec fn is_listing(list: Seq<DriverSandboxView>, sorted: Seq<DriverSandboxView>) -> bool {
    exists|order: Seq<int>| sorted_by(list, sorted, order)
}

/// Whether `a` is listed before `b`, or neither before the other.
fn is_listed_before(a: &DriverSandbox, b: &DriverSandbox) -> (res: bool)
    ensures
        res == listed_before(a@, b@),
{
    if a.name == b.name {
        text_at_most(&a.id, &b.id)
    } else {
        text_at_most(&a.name, &b.name)
    }
}

/// The order of a listing is total.
pub proof fn lemma_listed_total(a: DriverSandboxView, b: DriverSandboxView)
    ensures
        listed_before(a, b) || listed_before(b, a),
{
    lemma_text_le_total(a.name, b.name);
    lemma_text_le_total(a.id, b.id);
}

/// The order of a listing is transitive.
pub proof fn lemma_listed_transitive(
    a: DriverSandboxView,
    b: DriverSandboxView,
    c: DriverSandboxView,
)
    requires
        listed_before(a, b),
        listed_before(b, c),
    ensures
        listed_before(a, c),
{
    if a.name == b.name && b.name == c.name {
        lemma_text_le_transitive(a.id, b.id, c.id);
    } else if a.name != b.name && b.name != c.name {
        lemma_text_le_transitive(a.name, b.name, c.name);
        if a.name == c.name {
            lemma_text_le_antisymmetric(a.name, b.name);
        }
    }
}

/// One more element goes into a sorted list: `sorted` with `list[k]` at `pos`.
proof fn lemma_insert_sorted(
    list: Seq<DriverSandboxView>,
    sorted: Seq<DriverSandboxView>,
    order: Seq<int>,
    x: DriverSandboxView,
    pos: int,
)
    requires
        sorted_by(list, sorted, order),
        0 <= pos <= sorted.len(),
        pos > 0 ==> listed_before(sorted[pos - 1], x),
        forall|j: int| pos <= j < sorted.len() ==> !listed_before(#[trigger] sorted[j], x),
    ensures
        sorted_by(list.push(x), sorted.insert(pos, x), order.insert(pos, list.len() as int)),
{
    let n = list.len() as int;
    let list2 = list.push(x);
    let sorted2 = sorted.insert(pos, x);
    let order2 = order.insert(pos, n);
    assert forall|i: int| 0 <= i < pos implies listed_before(#[trigger] sorted[i], x) by {
        if i < pos - 1 {
            lemma_listed_transitive(sorted[i], sorted[pos - 1], x);
        }
    }
    assert forall|j: int| pos <= j < sorted.len() implies listed_before(x, #[trigger] sorted[j]) by {
        lemma_listed_total(x, sorted[j]);
    }
    assert forall|i: int| 0 <= i < order2.len() implies 0 <= #[trigger] order2[i] < list2.len()
        && sorted2[i] == list2[order2[i]] by {
        if i < pos {
            assert(order2[i] == order[i]);
        } else if i > pos {
            assert(order2[i] == order[i - 1]);
        }
    }
    assert forall|i: int, j: int| 0 <= i < order2.len() && 0 <= j < order2.len() && i != j implies
        order2[i] != order2[j] by {
        let a = if i < pos {
            i
        } else {
            i - 1
        };
        let b = if j < pos {
            j
        } else {
            j - 1
        };
        if i != pos && j != pos {
            assert(order2[i] == order[a] && order2[j] == order[b] && a != b);
        } else if i == pos {
            assert(order2[j] == order[b] && order[b] < n);
        } else {
            assert(order2[i] == order[a] && order[a] < n);
        }
    }
    assert forall|i: int, j: int| 0 <= i < j < sorted2.len() implies {
        &&& listed_before(#[trigger] sorted2[i], #[trigger] sorted2[j])
        &&& listed_before(sorted2[j], sorted2[i]) ==> order2[i] < order2[j]
    } by {
        let a = if i < pos {
            i
        } else {
            i - 1
        };
        let b = if j < pos {
            j
        } else {
            j - 1
        };
        if i == pos {
            assert(sorted2[j] == sorted[b] && sorted2[i] == x);
        } else if j == pos {
            assert(sorted2[i] == sorted[a] && sorted2[j] == x);
            assert(order2[i] == order[a] && order[a] < n);
        } else {
            assert(sorted2[i] == sorted[a] && sorted2[j] == sorted[b]);
            assert(order2[i] == order[a] && order2[j] == order[b]);
        }
    }
}

/// Inserts `x` into a sorted list, behind everything that may come before it.
fn insert_sorted(
    sorted: &mut Vec<DriverSandbox>,
    x: DriverSandbox,
    list: Ghost<Seq<DriverSandboxView>>,
)
    requires
        is_listing(list@, sandbox_views(old(sorted)@)),
    ensures
        is_listing(list@.push(x@), sandbox_views(final(sorted)@)),
{
    let ghost before = sandbox_views(sorted@);
    let ghost order = choose|order: Seq<int>| sorted_by(list@, before, order);
    let mut pos: usize = sorted.len();
    while pos > 0 && !is_listed_before(&sorted[pos - 1], &x)
        invariant
            before == sandbox_views(sorted@),
            sorted@ == old(sorted)@,
            pos <= sorted@.len(),
            forall|j: int| pos <= j < before.len() ==> !listed_before(#[trigger] before[j], x@),
        decreases pos,
    {
        pos -= 1;
    }
    proof {
        lemma_insert_sorted(list@, before, order, x@, pos as int);
    }
    sorted.insert(pos, x);
    proof {
        assert(sandbox_views(sorted@) =~= before.insert(pos as int, x@));
        assert(sorted_by(
            list@.push(x@),
            sandbox_views(sorted@),
            order.insert(pos as int, list@.len() as int),
        ));
    }
}

/// A sandbox looked up in contracts.
pub open spec fn lookup_view(res: Result<Option<DriverSandbox>, ComputeDriverError>) -> Result<
    Option<DriverSandboxView>,
    ComputeDriverErrorView,
> {
    match res {
        Ok(sandbox) => Ok(sandbox_view(sandbox)),
        Err(e) => Err(e@),
    }
}

/// The managed sandboxes among a list of containers, as a listing.
pub fn listing(entries: &Vec<ContainerEntry>) -> (res: Vec<DriverSandbox>)
    ensures
        is_listing(sandboxes_among(entry_views(entries@)), sandbox_views(res@)),
{
    let ghost all = entry_views(entries@);
    let mut sorted: Vec<DriverSandbox> = Vec::new();
    proof {
        assert(all.take(0) =~= Seq::empty());
        assert(sorted_by(Seq::empty(), sandbox_views(sorted@), Seq::empty()));
    }
    let mut i: usize = 0;
    while i < entries.len()
        invariant
            all == entry_views(entries@),
            i <= entries@.len(),
            is_listing(sandboxes_among(all.take(i as int)), sandbox_views(sorted@)),
        decreases entries@.len() - i,
    {
        proof {
            assert(all.take(i + 1).drop_last() =~= all.take(i as int));
            assert(all.take(i + 1).last() == entries@[i as int]@);
        }
        if is_managed_entry(&entries[i]) {
            if let Some(sandbox) = driver_sandbox_from_entry(&entries[i]) {
                insert_sorted(&mut sorted, sandbox, Ghost(sandboxes_among(all.take(i as int))));
            }
        }
        i += 1;
    }
    proof {
        assert(all.take(entries@.len() as int) =~= all);
    }
    sorted
}

impl AppleContainerComputeDriver {
    /// The command that inspects a sandbox container.
    pub fn get_sandbox_command(&self, sandbox_name: &str) -> (res: CliCommand)
        ensures
            res@ == (CliCommandView {
                bin: self.cli.bin@,
                args: seq!["inspect"@, container_name_of(sandbox_name@)],
            }),
    {
        let name = container_name(sandbox_name);
        self.cli.inspect(&name)
    }

    /// Fetch a single sandbox, given what became of the inspection of its
    /// container.
    pub fn get_sandbox(inspected: Result<ContainerEntry, ContainerCliError>) -> (res: Result<
        Option<DriverSandbox>,
        ComputeDriverError,
    >)
        ensures
            lookup_view(res) == (match inspected {
                Ok(entry) => Ok(sandbox_of(entry@)),
                Err(e) => if e@ is NotFound {
                    Ok(None)
                } else {
                    Err(driver_error(e@))
                },
            }),
    {
        match inspected {
            Ok(entry) => Ok(driver_sandbox_from_entry(&entry)),
            Err(ContainerCliError::NotFound(_)) => Ok(None),
            Err(e) => Err(ComputeDriverError::from_cli(e)),
        }
    }

    /// List all managed sandboxes, by name and then by id, given what became of
    /// the listing of all containers.
    pub fn list_sandboxes(listed: Result<Vec<ContainerEntry>, ContainerCliError>) -> (res: Result<
        Vec<DriverSandbox>,
        ComputeDriverError,
    >)
        ensures
            match listed {
                Ok(entries) => res matches Ok(sandboxes) && is_listing(
                    sandboxes_among(entry_views(entries@)),
                    sandbox_views(sandboxes@),
                ),
                Err(e) => res matches Err(x) && x@ == driver_error(e@),
            },
    {
        match listed {
            Ok(entries) => Ok(listing(&entries)),
            Err(e) => Err(ComputeDriverError::from_cli(e)),
        }
    }
}

/// Every position of the list has its place in the rearrangement.
pub proof fn lemma_order_is_onto(
    list: Seq<DriverSandboxView>,
    sorted: Seq<DriverSandboxView>,
    order: Seq<int>,
    k: int,
)
    requires
        sorted_by(list, sorted, order),
        0 <= k < list.len(),
    ensures
        exists|i: int| 0 <= i < order.len() && order[i] == k,
{
    let n = list.len() as int;
    let range = vstd::set_lib::set_int_range(0, n);
    vstd::set_lib::lemma_int_range(0, n);
    order.unique_seq_to_set();
    assert(order.to_set().subset_of(range));
    vstd::set_lib::lemma_subset_equality(order.to_set(), range);
    assert(range.contains(k));
    assert(order.to_set().contains(k));
}

/// Two rearrangements that sort the same list agree on every position.
proof fn lemma_order_is_unique(
    list: Seq<DriverSandboxView>,
    a: Seq<DriverSandboxView>,
    p: Seq<int>,
    b: Seq<DriverSandboxView>,
    q: Seq<int>,
    k: int,
)
    requires
        sorted_by(list, a, p),
        sorted_by(list, b, q),
        0 <= k <= list.len(),
    ensures
        forall|i: int| 0 <= i < k ==> p[i] == q[i],
    decreases k,
{
    if k > 0 {
        lemma_order_is_unique(list, a, p, b, q, k - 1);
        let x = p[k - 1];
        let y = q[k - 1];
        if x != y {
            lemma_order_is_onto(list, b, q, x);
            let m = choose|i: int| 0 <= i < q.len() && q[i] == x;
            if m < k - 1 {
                assert(p[m] == p[k - 1]);
            }
            lemma_order_is_onto(list, a, p, y);
            let l = choose|i: int| 0 <= i < p.len() && p[i] == y;
            if l < k - 1 {
                assert(q[l] == q[k - 1]);
            }
            // `x` comes before `y` in one rearrangement and after it in the other.
            assert(a[k - 1] == list[x] && a[l] == list[y]);
            assert(b[k - 1] == list[y] && b[m] == list[x]);
            assert(listed_before(a[k - 1], a[l]));
            assert(listed_before(b[k - 1], b[m]));
        }
    }
}

/// A listing is determined by what is listed: there is no second one.
pub proof fn law_listing_is_unique(
    list: Seq<DriverSandboxView>,
    a: Seq<DriverSandboxView>,
    b: Seq<DriverSandboxView>,
)
    requires
        is_listing(list, a),
        is_listing(list, b),
    ensures
        a == b,
{
    let p = choose|order: Seq<int>| sorted_by(list, a, order);
    let q = choose|order: Seq<int>| sorted_by(list, b, order);
    lemma_order_is_unique(list, a, p, b, q, list.len() as int);
    assert forall|i: int| 0 <= i < a.len() implies a[i] == b[i] by {
        assert(p[i] == q[i]);
    }
    assert(a =~= b);
}

/// A listing holds what is listed, and nothing else.
pub proof fn law_listing_keeps_every_sandbox(
    list: Seq<DriverSandboxView>,
    sorted: Seq<DriverSandboxView>,
    sandbox: DriverSandboxView,
)
    requires
        is_listing(list, sorted),
    ensures
        sorted.len() == list.len(),
        sorted.contains(sandbox) == list.contains(sandbox),
{
    let order = choose|order: Seq<int>| sorted_by(list, sorted, order);
    if list.contains(sandbox) {
        let k = choose|k: int| 0 <= k < list.len() && list[k] == sandbox;
        lemma_order_is_onto(list, sorted, order, k);
        let i = choose|i: int| 0 <= i < order.len() && order[i] == k;
        assert(sorted[i] == sandbox);
    }
    if sorted.contains(sandbox) {
        let i = choose|i: int| 0 <= i < sorted.len() && sorted[i] == sandbox;
        assert(list[order[i]] == sandbox);
    }
}

/// Only managed containers are listed, and each that carries an id and a name is.
pub proof fn law_sandboxes_are_the_managed_containers(
    entries: Seq<EntryView>,
    sandbox: DriverSandboxView,
)
    ensures
        sandboxes_among(entries).contains(sandbox) <==> exists|i: int|
            0 <= i < entries.len() && sandbox_of(#[trigger] entries[i]) == Some(sandbox),
    decreases entries.len(),
{
    if entries.len() > 0 {
        let front = entries.drop_last();
        let last = entries.len() - 1;
        law_sandboxes_are_the_managed_containers(front, sandbox);
        let before = sandboxes_among(front);
        let all = sandboxes_among(entries);
        if all.contains(sandbox) {
            let i = choose|i: int| 0 <= i < all.len() && all[i] == sandbox;
            if i < before.len() {
                assert(before[i] == sandbox);
                let j = choose|j: int|
                    0 <= j < front.len() && sandbox_of(#[trigger] front[j]) == Some(sandbox);
                assert(entries[j] == front[j]);
            } else {
                assert(sandbox_of(entries[last]) == Some(sandbox));
            }
        }
        if exists|i: int|
            0 <= i < entries.len() && sandbox_of(#[trigger] entries[i]) == Some(sandbox) {
            let j = choose|i: int|
                0 <= i < entries.len() && sandbox_of(#[trigger] entries[i]) == Some(sandbox);
            if j < last {
                assert(front[j] == entries[j]);
                let i = choose|i: int| 0 <= i < before.len() && before[i] == sandbox;
                assert(all[i] == sandbox);
            } else {
                assert(all[all.len() - 1] == sandbox);
            }
        }
    }
}

} // verus!
