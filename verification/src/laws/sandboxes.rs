//! Laws on reading containers as sandboxes.
use crate::cli::ContainerCliError;
use crate::cli::ContainerEntry;
use crate::cli::EntryView;
use crate::compute::DriverCondition;
use crate::compute::DriverSandbox;
use crate::compute::DriverSandboxView;
use crate::driver::AppleContainerComputeDriver;
use crate::error::ComputeDriverError;
use crate::laws::runs::is_driver_error_of;
use crate::laws::runs::lemma_is_driver_error_of;
use crate::laws::words::is_word;
use crate::laws::words::lemma_is_word;
use crate::observe::condition_from_state;
use crate::observe::condition_of_state;
use crate::observe::driver_sandbox_from_entry;
use crate::observe::entry_views;
use crate::observe::is_managed_entry;
use crate::observe::lemma_order_is_onto;
use crate::observe::listed_before;
use crate::observe::sandbox_of;
use crate::observe::sandbox_views;
use crate::observe::sandboxes_among;
use crate::observe::sorted_by;
use crate::observe::state_of;
use crate::text::text_le;
use vstd::prelude::*;

verus! {

/// Whether a container carries a label with this value.
pub open spec fn carries(entry: ContainerEntry, label: Seq<char>, value: Seq<char>) -> bool {
    &&& entry.configuration.labels@.contains_key(label)
    &&& entry.configuration.labels@[label]@ == value
}

/// Whether a container carries a label at all.
pub open spec fn is_labelled(entry: ContainerEntry, label: Seq<char>) -> bool {
    entry.configuration.labels@.contains_key(label)
}

/// A container is managed if and only if its label says so.
pub proof fn law_labels_tell_managed_containers(entry: ContainerEntry, res: bool)
    requires
        call_ensures(is_managed_entry, (&entry,), res),
    ensures
        res <==> carries(entry, "openshell.ai/managed-by"@, "openshell"@),
{
}

/// Whether a condition is the one for a container's state, whatever its case: a
/// running container waits for its supervisor, one that is created or starting is
/// starting, one that exited, stopped or died has exited, and any other state is
/// unknown. None of them is ready.
pub open spec fn is_condition_of(state: Seq<char>, c: DriverCondition) -> bool {
    let running = is_word(state, "running"@);
    let starting = is_word(state, "created"@) || is_word(state, "starting"@);
    let exited = is_word(state, "exited"@) || is_word(state, "stopped"@) || is_word(
        state,
        "dead"@,
    );
    &&& c.type_@ == "Ready"@
    &&& c.status@ == "False"@
    &&& running ==> c.reason@ == "DependenciesNotReady"@
    &&& starting ==> c.reason@ == "Starting"@
    &&& exited ==> c.reason@ == "ContainerExited"@
    &&& !running && !starting && !exited ==> c.reason@ == "Unknown"@
    &&& running ==> c.message@ == "Container is running, waiting for supervisor"@
    &&& !running ==> c.message@ == "Container state: "@ + state
    &&& c.last_transition_time@.len() == 0
}

/// The condition in contracts is the one for the state.
proof fn lemma_is_condition_of(state: Seq<char>, c: DriverCondition)
    requires
        c@ == condition_of_state(state),
    ensures
        is_condition_of(state, c),
{
    reveal_strlit("running");
    reveal_strlit("created");
    reveal_strlit("starting");
    reveal_strlit("exited");
    reveal_strlit("stopped");
    reveal_strlit("dead");
    lemma_is_word(state, "running"@);
    lemma_is_word(state, "created"@);
    lemma_is_word(state, "starting"@);
    lemma_is_word(state, "exited"@);
    lemma_is_word(state, "stopped"@);
    lemma_is_word(state, "dead"@);
    assert("running"@[0] != "created"@[0]);
    assert("running"@[0] != "stopped"@[0]);
    assert("starting"@.len() != "stopped"@.len());
    assert("created"@[0] != "exited"@[0]);
    assert("created"@[0] != "stopped"@[0]);
}

/// The state of a container decides its sandbox's condition.
pub proof fn law_state_decides_the_condition(state: &str, res: DriverCondition)
    requires
        call_ensures(condition_from_state, (state,), res),
    ensures
        is_condition_of(state@, res),
{
    lemma_is_condition_of(state@, res);
}

/// Whether a container is a sandbox: it is managed and carries an id and a name.
pub open spec fn is_sandbox(entry: ContainerEntry) -> bool {
    &&& carries(entry, "openshell.ai/managed-by"@, "openshell"@)
    &&& is_labelled(entry, "openshell.ai/sandbox-id"@)
    &&& is_labelled(entry, "openshell.ai/sandbox-name"@)
}

/// Whether a sandbox is what a container reads as: id, name and namespace are
/// those of its labels, and its status is the container's.
pub open spec fn reads_as(entry: ContainerEntry, sandbox: DriverSandbox) -> bool {
    &&& carries(entry, "openshell.ai/sandbox-id"@, sandbox.id@)
    &&& carries(entry, "openshell.ai/sandbox-name"@, sandbox.name@)
    &&& if is_labelled(entry, "openshell.ai/sandbox-namespace"@) {
        carries(entry, "openshell.ai/sandbox-namespace"@, sandbox.namespace@)
    } else {
        sandbox.namespace@ == "default"@
    }
    &&& sandbox.spec is None
    &&& sandbox.status matches Some(status) && {
        &&& status.sandbox_name@ == entry.id@
        &&& status.instance_id@ == entry.id@
        &&& status.agent_fd@.len() == 0
        &&& status.sandbox_fd@.len() == 0
        &&& !status.deleting
        &&& status.conditions@.len() == 1
        &&& is_condition_of(
            match entry.status {
                Some(s) => s.state@,
                None => "unknown"@,
            },
            status.conditions@[0],
        )
    }
}

/// The labels of a container in contracts are its labels.
proof fn lemma_entry_view(entry: ContainerEntry)
    ensures
        entry@.id == entry.id@,
        forall|label: Seq<char>|
            #![trigger entry@.labels.contains_key(label)]
            #![trigger entry.configuration.labels@.contains_key(label)]
            entry@.labels.contains_key(label) == entry.configuration.labels@.contains_key(label),
        forall|label: Seq<char>|
            #![trigger entry@.labels[label]]
            #![trigger entry.configuration.labels@[label]]
            entry.configuration.labels@.contains_key(label) ==> entry@.labels[label]
                == entry.configuration.labels@[label]@,
{
}

/// The sandbox in contracts is what the container reads as.
pub proof fn lemma_reads_as(entry: ContainerEntry, sandbox: DriverSandbox)
    requires
        sandbox_of(entry@) == Some(sandbox@),
    ensures
        is_sandbox(entry),
        reads_as(entry, sandbox),
{
    lemma_entry_view(entry);
    let status = sandbox.status->0;
    assert(sandbox@.status == Some(status@));
    assert(status@.conditions.len() == status.conditions@.len());
    assert(status@.conditions[0] == status.conditions@[0]@);
    assert(status.conditions@[0]@ == condition_of_state(state_of(entry@)));
    lemma_is_condition_of(state_of(entry@), status.conditions@[0]);
}

/// A container is a sandbox in contracts if it is one.
pub proof fn lemma_is_sandbox(entry: ContainerEntry)
    ensures
        sandbox_of(entry@) is Some <==> is_sandbox(entry),
        sandbox_of(entry@) matches Some(s) ==> carries(entry, "openshell.ai/sandbox-id"@, s.id),
{
    lemma_entry_view(entry);
}

/// A container is read as a sandbox if and only if it is one, with all that it
/// says of it.
pub proof fn law_containers_are_read_as_sandboxes(
    entry: ContainerEntry,
    res: Option<DriverSandbox>,
)
    requires
        call_ensures(driver_sandbox_from_entry, (&entry,), res),
    ensures
        res is Some <==> is_sandbox(entry),
        res matches Some(sandbox) ==> reads_as(entry, sandbox),
{
    lemma_is_sandbox(entry);
    if let Some(sandbox) = res {
        lemma_reads_as(entry, sandbox);
    }
}

/// A sandbox that is looked up is what its container reads as. A container that is
/// missing, or is no sandbox, is no sandbox found; any other failure is a failure.
pub proof fn law_lookups_find_sandboxes(
    inspected: Result<ContainerEntry, ContainerCliError>,
    res: Result<Option<DriverSandbox>, ComputeDriverError>,
)
    requires
        call_ensures(AppleContainerComputeDriver::get_sandbox, (inspected,), res),
    ensures
        match inspected {
            Ok(entry) => {
                &&& res is Ok
                &&& res->Ok_0 is Some <==> is_sandbox(entry)
                &&& res->Ok_0 matches Some(sandbox) ==> reads_as(entry, sandbox)
            },
            Err(ContainerCliError::NotFound(_)) => res matches Ok(None),
            Err(e) => res matches Err(x) && is_driver_error_of(e, x),
        },
{
    match inspected {
        Ok(entry) => {
            lemma_is_sandbox(entry);
            if let Ok(Some(sandbox)) = res {
                lemma_reads_as(entry, sandbox);
            }
        },
        Err(e) => {
            if let Err(x) = res {
                lemma_is_driver_error_of(e, x);
            }
        },
    }
}

/// Whether `a` comes before `b` or equals it: `a` is how `b` starts, or has the
/// lower character where they first differ.
pub open spec fn no_later(a: Seq<char>, b: Seq<char>) -> bool {
    exists|i: int|
        {
            &&& 0 <= i <= a.len()
            &&& i <= b.len()
            &&& #[trigger] a.take(i) == b.take(i)
            &&& i == a.len() || (i < b.len() && a[i] < b[i])
        }
}

/// The order of texts in contracts goes by the first difference.
pub proof fn lemma_no_later(a: Seq<char>, b: Seq<char>)
    requires
        text_le(a, b),
    ensures
        no_later(a, b),
    decreases a.len(),
{
    if a.len() > 0 && a.first() == b.first() {
        let x = a.drop_first();
        let y = b.drop_first();
        lemma_no_later(x, y);
        let i = choose|i: int|
            {
                &&& 0 <= i <= x.len()
                &&& i <= y.len()
                &&& #[trigger] x.take(i) == y.take(i)
                &&& i == x.len() || (i < y.len() && x[i] < y[i])
            };
        let p = a.take(i + 1);
        let q = b.take(i + 1);
        assert forall|k: int| 0 <= k < i + 1 implies #[trigger] p[k] == q[k] by {
            if k > 0 {
                assert(x.take(i)[k - 1] == x[k - 1]);
                assert(y.take(i)[k - 1] == y[k - 1]);
            }
        }
        assert(p =~= q);
    } else {
        assert(a.take(0) =~= b.take(0));
    }
}

/// Whether `listed` is the listing of the sandboxes among `entries`, where the
/// sandbox at position `i` is the container at position `places[i]`: every
/// container that is a sandbox has one place, and no other has; the order is by
/// name, then by id, then by the order of the containers.
pub open spec fn lists_in_order(
    entries: Seq<ContainerEntry>,
    listed: Seq<DriverSandbox>,
    places: Seq<int>,
) -> bool {
    &&& places.len() == listed.len()
    &&& places.no_duplicates()
    &&& forall|i: int|
        0 <= i < places.len() ==> {
            &&& 0 <= #[trigger] places[i] < entries.len()
            &&& is_sandbox(entries[places[i]])
            &&& reads_as(entries[places[i]], listed[i])
        }
    &&& forall|k: int|
        0 <= k < entries.len() && is_sandbox(#[trigger] entries[k]) ==> places.contains(k)
    &&& forall|i: int, j: int|
        0 <= i < j < listed.len() ==> {
            let a = #[trigger] listed[i];
            let b = #[trigger] listed[j];
            if a.name@ != b.name@ {
                no_later(a.name@, b.name@)
            } else if a.id@ != b.id@ {
                no_later(a.id@, b.id@)
            } else {
                places[i] < places[j]
            }
        }
}

/// Where the sandboxes among a list of containers stand in it.
proof fn lemma_places(entries: Seq<EntryView>) -> (places: Seq<int>)
    ensures
        places.len() == sandboxes_among(entries).len(),
        forall|j: int|
            0 <= j < places.len() ==> 0 <= #[trigger] places[j] < entries.len() && sandbox_of(
                entries[places[j]],
            ) == Some(sandboxes_among(entries)[j]),
        forall|i: int, j: int| 0 <= i < j < places.len() ==> places[i] < places[j],
        forall|k: int|
            0 <= k < entries.len() && sandbox_of(#[trigger] entries[k]) is Some
                ==> places.contains(k),
    decreases entries.len(),
{
    if entries.len() == 0 {
        Seq::empty()
    } else {
        let front = entries.drop_last();
        let n = entries.len() - 1;
        let before = lemma_places(front);
        let places = if sandbox_of(entries.last()) is Some {
            before.push(n)
        } else {
            before
        };
        assert forall|j: int| 0 <= j < places.len() implies 0 <= #[trigger] places[j]
            < entries.len() && sandbox_of(entries[places[j]]) == Some(
            sandboxes_among(entries)[j],
        ) by {
            if j < before.len() {
                assert(places[j] == before[j]);
                assert(front[before[j]] == entries[before[j]]);
            }
        }
        assert forall|k: int| 0 <= k < entries.len() && sandbox_of(
            #[trigger] entries[k],
        ) is Some implies places.contains(k) by {
            if k < n {
                assert(front[k] == entries[k]);
                let j = choose|j: int| 0 <= j < before.len() && before[j] == k;
                assert(places[j] == k);
            } else {
                assert(places[before.len() as int] == n);
            }
        }
        places
    }
}

/// A listing holds each container that is a sandbox, as what it reads as, and
/// nothing else. It is ordered by name, then by id; containers with the same name
/// and id stay in their order. A failure to list is a failure.
pub proof fn law_listings_are_complete_and_ordered(
    listed: Result<Vec<ContainerEntry>, ContainerCliError>,
    res: Result<Vec<DriverSandbox>, ComputeDriverError>,
)
    requires
        call_ensures(AppleContainerComputeDriver::list_sandboxes, (listed,), res),
    ensures
        match listed {
            Ok(entries) => res matches Ok(sandboxes) && exists|places: Seq<int>|
                lists_in_order(entries@, sandboxes@, places),
            Err(e) => res matches Err(x) && is_driver_error_of(e, x),
        },
{
    match (listed, res) {
        (Ok(entries), Ok(sandboxes)) => {
            let es = entry_views(entries@);
            let list = sandboxes_among(es);
            let sorted = sandbox_views(sandboxes@);
            let order = choose|order: Seq<int>| sorted_by(list, sorted, order);
            let among = lemma_places(es);
            let places = Seq::new(order.len(), |i: int| among[order[i]]);
            lemma_listing_places(entries@, sandboxes@, order, among, places);
            assert(lists_in_order(entries@, sandboxes@, places));
        },
        (Err(e), Err(x)) => {
            lemma_is_driver_error_of(e, x);
        },
        _ => {},
    }
}

/// The places of a listing, from those of the sandboxes and their rearrangement.
proof fn lemma_listing_places(
    entries: Seq<ContainerEntry>,
    listed: Seq<DriverSandbox>,
    order: Seq<int>,
    among: Seq<int>,
    places: Seq<int>,
)
    requires
        sorted_by(sandboxes_among(entry_views(entries)), sandbox_views(listed), order),
        among.len() == sandboxes_among(entry_views(entries)).len(),
        forall|j: int|
            0 <= j < among.len() ==> 0 <= #[trigger] among[j] < entries.len() && sandbox_of(
                entry_views(entries)[among[j]],
            ) == Some(sandboxes_among(entry_views(entries))[j]),
        forall|i: int, j: int| 0 <= i < j < among.len() ==> among[i] < among[j],
        forall|k: int|
            0 <= k < entries.len() && sandbox_of(#[trigger] entry_views(entries)[k]) is Some
                ==> among.contains(k),
        places == Seq::new(order.len(), |i: int| among[order[i]]),
    ensures
        lists_in_order(entries, listed, places),
{
    let es = entry_views(entries);
    let list = sandboxes_among(es);
    let sorted = sandbox_views(listed);
    assert forall|i: int| 0 <= i < places.len() implies {
        &&& 0 <= #[trigger] places[i] < entries.len()
        &&& is_sandbox(entries[places[i]])
        &&& reads_as(entries[places[i]], listed[i])
    } by {
        assert(0 <= order[i] < list.len());
        let k = among[order[i]];
        assert(0 <= k < entries.len());
        assert(es[k] == entries[k]@);
        assert(sorted[i] == listed[i]@);
        lemma_reads_as(entries[k], listed[i]);
    }
    assert forall|i: int, j: int| 0 <= i < places.len() && 0 <= j < places.len() && i != j implies
        places[i] != places[j] by {
        assert(order[i] != order[j]);
        assert(0 <= order[i] < list.len() && 0 <= order[j] < list.len());
        if order[i] < order[j] {
            assert(among[order[i]] < among[order[j]]);
        } else {
            assert(among[order[j]] < among[order[i]]);
        }
    }
    assert forall|k: int| 0 <= k < entries.len() && is_sandbox(
        #[trigger] entries[k],
    ) implies places.contains(k) by {
        lemma_is_sandbox(entries[k]);
        assert(es[k] == entries[k]@);
        let j = choose|j: int| 0 <= j < among.len() && among[j] == k;
        lemma_order_is_onto(list, sorted, order, j);
        let i = choose|i: int| 0 <= i < order.len() && order[i] == j;
        assert(places[i] == k);
    }
    assert forall|i: int, j: int| 0 <= i < j < listed.len() implies {
        let a = #[trigger] listed[i];
        let b = #[trigger] listed[j];
        if a.name@ != b.name@ {
            no_later(a.name@, b.name@)
        } else if a.id@ != b.id@ {
            no_later(a.id@, b.id@)
        } else {
            places[i] < places[j]
        }
    } by {
        assert(sorted[i] == listed[i]@ && sorted[j] == listed[j]@);
        assert(listed_before(sorted[i], sorted[j]));
        if listed[i].name@ != listed[j].name@ {
            lemma_no_later(listed[i].name@, listed[j].name@);
        } else {
            lemma_no_later(listed[i].id@, listed[j].id@);
            if listed[i].id@ == listed[j].id@ {
                assert(listed_before(sorted[j], sorted[i]));
                assert(order[i] < order[j]);
                assert(0 <= order[i] < list.len() && 0 <= order[j] < list.len());
                assert(among[order[i]] < among[order[j]]);
            }
        }
    }
}

/// A sandbox in contracts shows all that is observed of it.
pub proof fn law_views_show_what_is_observed(sandbox: DriverSandbox, i: int)
    ensures
        sandbox@.id == sandbox.id@,
        sandbox@.name == sandbox.name@,
        sandbox@.namespace == sandbox.namespace@,
        sandbox@.status is Some <==> sandbox.status is Some,
        sandbox.status matches Some(s) ==> {
            let v: DriverSandboxView = sandbox@;
            let t = v.status->0;
            &&& t.sandbox_name == s.sandbox_name@
            &&& t.instance_id == s.instance_id@
            &&& t.agent_fd == s.agent_fd@
            &&& t.sandbox_fd == s.sandbox_fd@
            &&& t.deleting == s.deleting
            &&& t.conditions.len() == s.conditions@.len()
            &&& 0 <= i < s.conditions@.len() ==> {
                &&& t.conditions[i].type_ == s.conditions@[i].type_@
                &&& t.conditions[i].status == s.conditions@[i].status@
                &&& t.conditions[i].reason == s.conditions@[i].reason@
                &&& t.conditions[i].message == s.conditions@[i].message@
                &&& t.conditions[i].last_transition_time
                    == s.conditions@[i].last_transition_time@
            }
        },
{
}

/// A sandbox in contracts shows all that is asked of it.
pub proof fn law_views_show_what_is_asked(sandbox: DriverSandbox, i: int)
    ensures
        sandbox@.spec is Some <==> sandbox.spec is Some,
        sandbox.spec matches Some(s) ==> {
            let v: DriverSandboxView = sandbox@;
            let t = v.spec->0;
            &&& t.gpu == s.gpu
            &&& t.sandbox_token == s.sandbox_token@
            &&& t.environment.len() == s.environment.entries().len()
            &&& 0 <= i < t.environment.len() ==> t.environment[i].0
                == s.environment.entries()[i].0 && t.environment[i].1
                == s.environment.entries()[i].1@
            &&& t.template is Some <==> s.template is Some
            &&& s.template matches Some(x) ==> {
                &&& t.template->0.image == x.image@
                &&& t.template->0.environment.len() == x.environment.entries().len()
                &&& 0 <= i < t.template->0.environment.len() ==> t.template->0.environment[i].0
                    == x.environment.entries()[i].0 && t.template->0.environment[i].1
                    == x.environment.entries()[i].1@
            }
        },
{
}

} // verus!
