//! Watching sandboxes.
//!
//! Apple's `container` tool has no stream of events, so the containers are
//! listed at a regular interval, and what changed from one list to the next is
//! reported.
use crate::cli::ContainerCliError;
use crate::cli::ContainerEntry;
use crate::cli::EntryView;
use crate::compute::DriverConditionView;
use crate::compute::DriverSandbox;
use crate::compute::DriverSandboxView;
use crate::compute::WatchEventView;
use crate::compute::WatchPayload;
use crate::compute::WatchSandboxesDeletedEvent;
use crate::compute::WatchSandboxesEvent;
use crate::compute::WatchSandboxesSandboxEvent;
use crate::observe::driver_sandbox_from_entry;
use crate::observe::entry_views;
use crate::observe::is_managed_entry;
use crate::observe::sandbox_of;
use crate::string_map::distinct_keys;
use crate::string_map::has_key;
use crate::string_map::inserted;
use crate::string_map::lemma_inserted;
use crate::string_map::lemma_position;
use crate::string_map::map_of;
use crate::string_map::position;
use crate::string_map::StringMap;
use vstd::prelude::*;

verus! {

/// Seconds between two lists.
pub const POLL_INTERVAL_SECS: u64 = 3;

/// The longest pause after failures to list, in seconds.
pub const POLL_MAX_BACKOFF_SECS: u64 = 30;

/// Events that may wait for a slow subscriber.
pub const WATCH_BUFFER: usize = 128;

/// Sandboxes by id, in contracts.
pub type Snapshot = Seq<(Seq<char>, DriverSandboxView)>;

/// Sandboxes by id, in contracts.
pub open spec fn snapshot(m: StringMap<DriverSandbox>) -> Snapshot {
    m.entries().map_values(|e: (Seq<char>, DriverSandbox)| (e.0, e.1@))
}

/// Whether no id occurs twice and each sandbox stands under its own id.
pub open spec fn keyed_by_id(s: Snapshot) -> bool {
    &&& distinct_keys(s)
    &&& forall|i: int| 0 <= i < s.len() ==> (#[trigger] s[i]).0 == s[i].1.id
}

/// The sandboxes among a list of containers, by id. Of containers with the same
/// id the last one counts.
pub open spec fn polled(entries: Seq<EntryView>) -> Snapshot
    decreases entries.len(),
{
    if entries.len() == 0 {
        Seq::empty()
    } else {
        let before = polled(entries.drop_last());
        match sandbox_of(entries.last()) {
            Some(sandbox) => inserted(before, sandbox.id, sandbox),
            None => before,
        }
    }
}

/// Whether two conditions are the same as far as a subscriber cares.
pub open spec fn same_condition(a: DriverConditionView, b: DriverConditionView) -> bool {
    a.type_ == b.type_ && a.status == b.status && a.reason == b.reason
}

/// Whether two sandboxes are in the same status as far as a subscriber cares.
/// Neither messages nor transition times matter.
pub open spec fn same_status(a: DriverSandboxView, b: DriverSandboxView) -> bool {
    match (a.status, b.status) {
        (Some(x), Some(y)) => {
            &&& x.instance_id == y.instance_id
            &&& x.deleting == y.deleting
            &&& x.conditions.len() == y.conditions.len()
            &&& forall|i: int|
                0 <= i < x.conditions.len() ==> same_condition(
                    #[trigger] x.conditions[i],
                    y.conditions[i],
                )
        },
        (None, None) => true,
        _ => false,
    }
}

/// Every sandbox is in the same status as itself.
pub proof fn law_same_status_reflexive(a: DriverSandboxView)
    ensures
        same_status(a, a),
{
}

/// Which of two sandboxes is named first does not matter.
pub proof fn law_same_status_symmetric(a: DriverSandboxView, b: DriverSandboxView)
    ensures
        same_status(a, b) == same_status(b, a),
{
    if let (Some(x), Some(y)) = (a.status, b.status) {
        if same_status(a, b) {
            assert forall|i: int| 0 <= i < y.conditions.len() implies same_condition(
                #[trigger] y.conditions[i],
                x.conditions[i],
            ) by {
                assert(same_condition(x.conditions[i], y.conditions[i]));
            }
        }
        if same_status(b, a) {
            assert forall|i: int| 0 <= i < x.conditions.len() implies same_condition(
                #[trigger] x.conditions[i],
                y.conditions[i],
            ) by {
                assert(same_condition(y.conditions[i], x.conditions[i]));
            }
        }
    }
}

/// Two sandboxes that are each in the status of a third are in the same status.
pub proof fn law_same_status_transitive(
    a: DriverSandboxView,
    b: DriverSandboxView,
    c: DriverSandboxView,
)
    requires
        same_status(a, b),
        same_status(b, c),
    ensures
        same_status(a, c),
{
    if let (Some(x), Some(y), Some(z)) = (a.status, b.status, c.status) {
        assert forall|i: int| 0 <= i < x.conditions.len() implies same_condition(
            #[trigger] x.conditions[i],
            z.conditions[i],
        ) by {
            assert(same_condition(x.conditions[i], y.conditions[i]));
            assert(same_condition(y.conditions[i], z.conditions[i]));
        }
    }
}

/// Rough equality check on sandbox status for change detection.
pub fn sandbox_status_eq(a: &DriverSandbox, b: &DriverSandbox) -> (res: bool)
    ensures
        res == same_status(a@, b@),
{
    match (&a.status, &b.status) {
        (Some(x), Some(y)) => {
            if x.instance_id != y.instance_id || x.deleting != y.deleting || x.conditions.len()
                != y.conditions.len() {
                return false;
            }
            let mut i: usize = 0;
            while i < x.conditions.len()
                invariant
                    a.status == Some(*x),
                    b.status == Some(*y),
                    x.conditions@.len() == y.conditions@.len(),
                    i <= x.conditions@.len(),
                    forall|j: int|
                        0 <= j < i ==> same_condition(
                            #[trigger] x@.conditions[j],
                            y@.conditions[j],
                        ),
                decreases x.conditions@.len() - i,
            {
                let c = &x.conditions[i];
                let d = &y.conditions[i];
                if c.type_ != d.type_ || c.status != d.status || c.reason != d.reason {
                    proof {
                        assert(!same_condition(x@.conditions[i as int], y@.conditions[i as int]));
                    }
                    return false;
                }
                i += 1;
            }
            true
        },
        (None, None) => true,
        _ => false,
    }
}

/// A map of sandboxes and its snapshot have the same keys and values.
proof fn lemma_snapshot(m: StringMap<DriverSandbox>)
    requires
        distinct_keys(m.entries()),
    ensures
        distinct_keys(snapshot(m)),
        forall|id: Seq<char>| #[trigger] has_key(snapshot(m), id) == m@.contains_key(id),
        forall|id: Seq<char>|
            m@.contains_key(id) ==> #[trigger] map_of(snapshot(m))[id] == m@[id]@,
{
    let s = snapshot(m);
    let e = m.entries();
    assert forall|i: int, j: int| 0 <= i < j < s.len() implies (#[trigger] s[i]).0 != (
    #[trigger] s[j]).0 by {
        assert(e[i].0 != e[j].0);
    }
    assert forall|id: Seq<char>| #[trigger] has_key(s, id) == m@.contains_key(id) by {
        if has_key(s, id) {
            assert(e[position(s, id)].0 == id);
        }
        if has_key(e, id) {
            assert(s[position(e, id)].0 == id);
        }
    }
    assert forall|id: Seq<char>| m@.contains_key(id) implies #[trigger] map_of(s)[id]
        == m@[id]@ by {
        let i = position(e, id);
        assert(e[i].0 == id);
        lemma_position(e, i);
        assert(s[i].0 == id);
        lemma_position(s, i);
    }
}

/// The snapshot after an insertion is the snapshot with an insertion.
proof fn lemma_snapshot_inserted(
    e: Seq<(Seq<char>, DriverSandbox)>,
    id: Seq<char>,
    sandbox: DriverSandbox,
)
    requires
        distinct_keys(e),
    ensures
        inserted(e, id, sandbox).map_values(|e: (Seq<char>, DriverSandbox)| (e.0, e.1@))
            == inserted(
            e.map_values(|e: (Seq<char>, DriverSandbox)| (e.0, e.1@)),
            id,
            sandbox@,
        ),
{
    let s = e.map_values(|e: (Seq<char>, DriverSandbox)| (e.0, e.1@));
    if has_key(e, id) {
        let p = position(e, id);
        assert(s[p].0 == id);
        let q = position(s, id);
        assert(e[q].0 == id);
        lemma_position(e, q);
        assert(p == q);
    } else {
        if has_key(s, id) {
            assert(e[position(s, id)].0 == id);
        }
    }
    assert(inserted(e, id, sandbox).map_values(|e: (Seq<char>, DriverSandbox)| (e.0, e.1@))
        =~= inserted(s, id, sandbox@));
}

/// An insertion of a sandbox under its id keeps a snapshot keyed by id.
proof fn lemma_keyed_inserted(s: Snapshot, sandbox: DriverSandboxView)
    requires
        keyed_by_id(s),
    ensures
        keyed_by_id(inserted(s, sandbox.id, sandbox)),
{
    lemma_inserted(s, sandbox.id, sandbox);
    let after = inserted(s, sandbox.id, sandbox);
    assert forall|i: int| 0 <= i < after.len() implies (#[trigger] after[i]).0 == after[i].1.id by {
        if has_key(s, sandbox.id) {
            assert(s[position(s, sandbox.id)].0 == sandbox.id);
            if i != position(s, sandbox.id) {
                assert(after[i] == s[i]);
            }
        } else if i < s.len() {
            assert(after[i] == s[i]);
        }
    }
}

/// The managed sandboxes among a list of containers, keyed by sandbox ID.
pub fn poll_managed_sandboxes(entries: &Vec<ContainerEntry>) -> (res: StringMap<DriverSandbox>)
    ensures
        snapshot(res) == polled(entry_views(entries@)),
        keyed_by_id(snapshot(res)),
{
    let ghost all = entry_views(entries@);
    let mut res: StringMap<DriverSandbox> = StringMap::new();
    proof {
        assert(all.take(0) =~= Seq::empty());
        assert(snapshot(res) =~= Seq::empty());
    }
    let mut i: usize = 0;
    while i < entries.len()
        invariant
            all == entry_views(entries@),
            i <= entries@.len(),
            snapshot(res) == polled(all.take(i as int)),
            distinct_keys(res.entries()),
            keyed_by_id(snapshot(res)),
        decreases entries@.len() - i,
    {
        proof {
            assert(all.take(i + 1).drop_last() =~= all.take(i as int));
            assert(all.take(i + 1).last() == entries@[i as int]@);
        }
        if is_managed_entry(&entries[i]) {
            if let Some(sandbox) = driver_sandbox_from_entry(&entries[i]) {
                proof {
                    lemma_snapshot_inserted(res.entries(), sandbox.id@, sandbox);
                    lemma_keyed_inserted(snapshot(res), sandbox@);
                }
                res.insert(sandbox.id.clone(), sandbox);
            }
        }
        i += 1;
    }
    proof {
        assert(all.take(entries@.len() as int) =~= all);
    }
    res
}

/// Whether a sandbox is new since `previous`, or its status changed.
pub open spec fn is_news(previous: Snapshot, id: Seq<char>, sandbox: DriverSandboxView) -> bool {
    !has_key(previous, id) || !same_status(map_of(previous)[id], sandbox)
}

/// The reports of new and changed sandboxes.
pub open spec fn updates(previous: Snapshot, current: Snapshot) -> Seq<WatchEventView>
    decreases current.len(),
{
    if current.len() == 0 {
        Seq::empty()
    } else {
        let before = updates(previous, current.drop_last());
        let (id, sandbox) = current.last();
        if is_news(previous, id, sandbox) {
            before.push(WatchEventView::Sandbox(sandbox))
        } else {
            before
        }
    }
}

/// The reports of sandboxes that are gone.
pub open spec fn deletions(previous: Snapshot, current: Snapshot) -> Seq<WatchEventView>
    decreases previous.len(),
{
    if previous.len() == 0 {
        Seq::empty()
    } else {
        let before = deletions(previous.drop_last(), current);
        let (id, _) = previous.last();
        if has_key(current, id) {
            before
        } else {
            before.push(WatchEventView::Deleted(id))
        }
    }
}

/// What changed from one snapshot to the next: first what is new or changed,
/// then what is gone.
pub open spec fn changes(previous: Snapshot, current: Snapshot) -> Seq<WatchEventView> {
    updates(previous, current) + deletions(previous, current)
}

/// The report of every sandbox of a snapshot.
pub open spec fn announcements(current: Snapshot) -> Seq<WatchEventView> {
    current.map_values(|e: (Seq<char>, DriverSandboxView)| WatchEventView::Sandbox(e.1))
}

/// A list of events in contracts.
pub open spec fn event_views(events: Seq<WatchSandboxesEvent>) -> Seq<WatchEventView> {
    events.map_values(|e: WatchSandboxesEvent| e@)
}

/// The event that reports a sandbox.
fn sandbox_event(sandbox: &DriverSandbox) -> (res: WatchSandboxesEvent)
    ensures
        res@ == WatchEventView::Sandbox(sandbox@),
{
    WatchSandboxesEvent {
        payload: Some(
            WatchPayload::Sandbox(WatchSandboxesSandboxEvent { sandbox: Some(sandbox.clone()) }),
        ),
    }
}

/// The event that reports that a sandbox is gone.
fn deleted_event(id: &String) -> (res: WatchSandboxesEvent)
    ensures
        res@ == WatchEventView::Deleted(id@),
{
    WatchSandboxesEvent {
        payload: Some(WatchPayload::Deleted(WatchSandboxesDeletedEvent { sandbox_id: id.clone() })),
    }
}

/// The events that report what changed from one snapshot to the next.
pub fn events_between(
    previous: &StringMap<DriverSandbox>,
    current: &StringMap<DriverSandbox>,
) -> (res: Vec<WatchSandboxesEvent>)
    ensures
        event_views(res@) == changes(snapshot(*previous), snapshot(*current)),
{
    let ghost old_snap = snapshot(*previous);
    let ghost new_snap = snapshot(*current);
    let mut events: Vec<WatchSandboxesEvent> = Vec::new();
    let n: usize = current.len();
    let m: usize = previous.len();
    proof {
        lemma_snapshot(*previous);
        lemma_snapshot(*current);
        assert(new_snap.take(0) =~= Seq::empty());
        assert(event_views(events@) =~= Seq::empty());
    }
    let mut i: usize = 0;
    while i < n
        invariant
            old_snap == snapshot(*previous),
            new_snap == snapshot(*current),
            distinct_keys(previous.entries()),
            n == current.entries().len(),
            i <= n,
            event_views(events@) == updates(old_snap, new_snap.take(i as int)),
        decreases n - i,
    {
        let id = current.key_at(i);
        let sandbox = current.value_at(i);
        let changed = match previous.get(id) {
            Some(prev) => !sandbox_status_eq(prev, sandbox),
            None => true,
        };
        proof {
            lemma_snapshot(*previous);
            assert(has_key(old_snap, id@) == previous@.contains_key(id@));
            if previous@.contains_key(id@) {
                assert(map_of(old_snap)[id@] == previous@[id@]@);
            }
            assert(changed == is_news(old_snap, id@, sandbox@));
            assert(new_snap.take(i + 1).drop_last() =~= new_snap.take(i as int));
            assert(new_snap.take(i + 1).last() == (id@, sandbox@));
        }
        if changed {
            let ghost before = event_views(events@);
            events.push(sandbox_event(sandbox));
            proof {
                assert(event_views(events@) =~= before.push(WatchEventView::Sandbox(sandbox@)));
            }
        }
        i += 1;
    }
    let ghost news = updates(old_snap, new_snap);
    proof {
        assert(new_snap.take(n as int) =~= new_snap);
        assert(old_snap.take(0) =~= Seq::empty());
        assert(event_views(events@) =~= news + deletions(old_snap.take(0), new_snap));
    }
    let mut j: usize = 0;
    while j < m
        invariant
            old_snap == snapshot(*previous),
            new_snap == snapshot(*current),
            distinct_keys(current.entries()),
            m == previous.entries().len(),
            j <= m,
            event_views(events@) == news + deletions(old_snap.take(j as int), new_snap),
        decreases m - j,
    {
        let id = previous.key_at(j);
        proof {
            lemma_snapshot(*current);
            assert(has_key(new_snap, id@) == current@.contains_key(id@));
            assert(old_snap.take(j + 1).drop_last() =~= old_snap.take(j as int));
            assert(old_snap.take(j + 1).last().0 == id@);
        }
        if !current.contains_key(id) {
            let ghost before = event_views(events@);
            events.push(deleted_event(id));
            proof {
                assert(event_views(events@) =~= before.push(WatchEventView::Deleted(id@)));
                assert(event_views(events@) =~= news + deletions(old_snap.take(j + 1), new_snap));
            }
        }
        j += 1;
    }
    proof {
        assert(old_snap.take(m as int) =~= old_snap);
    }
    events
}

/// The events that report every sandbox of a snapshot.
fn announce(current: &StringMap<DriverSandbox>) -> (res: Vec<WatchSandboxesEvent>)
    ensures
        event_views(res@) == announcements(snapshot(*current)),
{
    let mut events: Vec<WatchSandboxesEvent> = Vec::new();
    let n: usize = current.len();
    let mut i: usize = 0;
    while i < n
        invariant
            n == current.entries().len(),
            i <= n,
            events@.len() == i,
            forall|j: int|
                0 <= j < i ==> (#[trigger] events@[j])@ == announcements(snapshot(*current))[j],
        decreases n - i,
    {
        events.push(sandbox_event(current.value_at(i)));
        i += 1;
    }
    proof {
        assert(event_views(events@) =~= announcements(snapshot(*current)));
    }
    events
}

/// The pause after one more failure to list: twice as long, up to the longest.
pub open spec fn next_backoff(secs: int) -> int {
    if 2 * secs < POLL_MAX_BACKOFF_SECS {
        2 * secs
    } else {
        POLL_MAX_BACKOFF_SECS as int
    }
}

/// Where a watch stands: what it has seen last, and how long it pauses before it
/// looks again.
#[derive(Debug)]
pub struct WatchState {
    previous: StringMap<DriverSandbox>,
    backoff: u64,
}

impl WatchState {
    /// What the watch has seen last.
    pub closed spec fn seen(&self) -> Snapshot {
        snapshot(self.previous)
    }

    /// How long the watch pauses before it looks again, in seconds.
    pub closed spec fn pause(&self) -> int {
        self.backoff as int
    }

    #[verifier::type_invariant]
    spec fn valid(&self) -> bool {
        &&& keyed_by_id(self.seen())
        &&& POLL_INTERVAL_SECS <= self.backoff <= POLL_MAX_BACKOFF_SECS
    }

    /// How long to pause before the next list, in seconds.
    pub fn backoff_secs(&self) -> (res: u64)
        ensures
            res == self.pause(),
            POLL_INTERVAL_SECS <= res <= POLL_MAX_BACKOFF_SECS,
    {
        proof {
            use_type_invariant(self);
        }
        self.backoff
    }

    /// Takes the next list of containers, or the failure to get one, and returns
    /// the events to report. A failure changes nothing but the pause.
    pub fn advance(&mut self, listed: Result<Vec<ContainerEntry>, ContainerCliError>) -> (res: Vec<
        WatchSandboxesEvent,
    >)
        ensures
            keyed_by_id(old(self).seen()),
            keyed_by_id(final(self).seen()),
            match listed {
                Ok(entries) => {
                    &&& final(self).seen() == polled(entry_views(entries@))
                    &&& final(self).pause() == POLL_INTERVAL_SECS
                    &&& event_views(res@) == changes(old(self).seen(), final(self).seen())
                },
                Err(_) => {
                    &&& final(self).seen() == old(self).seen()
                    &&& final(self).pause() == next_backoff(old(self).pause())
                    &&& res@.len() == 0
                },
            },
    {
        proof {
            use_type_invariant(&*self);
        }
        match listed {
            Ok(entries) => {
                let current = poll_managed_sandboxes(&entries);
                let events = events_between(&self.previous, &current);
                *self = WatchState { previous: current, backoff: POLL_INTERVAL_SECS };
                events
            },
            Err(_) => {
                let doubled: u64 = self.backoff * 2;
                self.backoff =
                if doubled < POLL_MAX_BACKOFF_SECS {
                    doubled
                } else {
                    POLL_MAX_BACKOFF_SECS
                };
                Vec::new()
            },
        }
    }
}

/// Start a watch with the current list of containers, and return the events that
/// report what is there. Where there is no list, the watch starts with nothing.
pub fn start_watch(listed: Result<Vec<ContainerEntry>, ContainerCliError>) -> (res: (
    WatchState,
    Vec<WatchSandboxesEvent>,
))
    ensures
        res.0.seen() == (match listed {
            Ok(entries) => polled(entry_views(entries@)),
            Err(_) => Seq::empty(),
        }),
        keyed_by_id(res.0.seen()),
        res.0.pause() == POLL_INTERVAL_SECS,
        event_views(res.1@) == announcements(res.0.seen()),
{
    let previous = match listed {
        Ok(entries) => poll_managed_sandboxes(&entries),
        Err(_) => {
            let none: StringMap<DriverSandbox> = StringMap::new();
            proof {
                assert(snapshot(none) =~= Seq::empty());
            }
            none
        },
    };
    let events = announce(&previous);
    (WatchState { previous, backoff: POLL_INTERVAL_SECS }, events)
}

/// What a subscriber knows after one event.
pub open spec fn apply_event(
    known: Map<Seq<char>, DriverSandboxView>,
    event: WatchEventView,
) -> Map<Seq<char>, DriverSandboxView> {
    match event {
        WatchEventView::Sandbox(sandbox) => known.insert(sandbox.id, sandbox),
        WatchEventView::Deleted(id) => known.remove(id),
        WatchEventView::Empty => known,
    }
}

/// What a subscriber knows after a list of events.
pub open spec fn follow(
    known: Map<Seq<char>, DriverSandboxView>,
    events: Seq<WatchEventView>,
) -> Map<Seq<char>, DriverSandboxView>
    decreases events.len(),
{
    if events.len() == 0 {
        known
    } else {
        apply_event(follow(known, events.drop_last()), events.last())
    }
}

/// Whether a subscriber knows the sandboxes of a snapshot and their statuses.
pub open spec fn in_step(known: Map<Seq<char>, DriverSandboxView>, current: Snapshot) -> bool {
    &&& forall|id: Seq<char>| #[trigger] known.contains_key(id) == has_key(current, id)
    &&& forall|id: Seq<char>| #[trigger]
        known.contains_key(id) ==> same_status(known[id], map_of(current)[id])
}

/// Events can be followed in two parts.
proof fn lemma_follow_concat(
    known: Map<Seq<char>, DriverSandboxView>,
    a: Seq<WatchEventView>,
    b: Seq<WatchEventView>,
)
    ensures
        follow(known, a + b) == follow(follow(known, a), b),
    decreases b.len(),
{
    if b.len() == 0 {
        assert(a + b =~= a);
    } else {
        assert((a + b).drop_last() =~= a + b.drop_last());
        lemma_follow_concat(known, a, b.drop_last());
    }
}

/// The last entry of a snapshot keyed by id, and the entries before it.
proof fn lemma_keyed_split(s: Snapshot)
    requires
        keyed_by_id(s),
        s.len() > 0,
    ensures
        keyed_by_id(s.drop_last()),
        !has_key(s.drop_last(), s.last().0),
        forall|id: Seq<char>| #[trigger]
            has_key(s, id) == (has_key(s.drop_last(), id) || id == s.last().0),
        map_of(s)[s.last().0] == s.last().1,
        forall|id: Seq<char>|
            has_key(s.drop_last(), id) ==> #[trigger] map_of(s)[id] == map_of(s.drop_last())[id],
{
    let front = s.drop_last();
    let n = s.len() - 1;
    assert forall|i: int, j: int| 0 <= i < j < front.len() implies (#[trigger] front[i]).0 != (
    #[trigger] front[j]).0 by {
        assert(s[i].0 != s[j].0);
    }
    assert forall|i: int| 0 <= i < front.len() implies (#[trigger] front[i]).0 == front[i].1.id by {
        assert(s[i].0 == s[i].1.id);
    }
    if has_key(front, s.last().0) {
        let i = position(front, s.last().0);
        assert(front[i].0 == s.last().0);
        assert(s[i].0 != s[n].0);
    }
    assert forall|id: Seq<char>| #[trigger] has_key(s, id) == (has_key(front, id) || id
        == s.last().0) by {
        if has_key(s, id) {
            let i = position(s, id);
            assert(s[i].0 == id);
            if i < n {
                assert(front[i].0 == id);
            }
        }
        if has_key(front, id) {
            assert(s[position(front, id)].0 == id);
        }
        if id == s.last().0 {
            assert(s[n].0 == id);
        }
    }
    lemma_position(s, n);
    assert forall|id: Seq<char>| has_key(front, id) implies #[trigger] map_of(s)[id] == map_of(
        front,
    )[id] by {
        let i = position(front, id);
        assert(front[i].0 == id);
        lemma_position(front, i);
        lemma_position(s, i);
    }
}

/// After the reports of what is new or changed, a subscriber that was in step
/// knows the status of every sandbox that is there, and has not heard of others.
proof fn lemma_follow_updates(
    known: Map<Seq<char>, DriverSandboxView>,
    previous: Snapshot,
    current: Snapshot,
)
    requires
        in_step(known, previous),
        keyed_by_id(current),
    ensures
        forall|id: Seq<char>| #[trigger]
            follow(known, updates(previous, current)).contains_key(id) == (known.contains_key(id)
                || has_key(current, id)),
        forall|id: Seq<char>|
            has_key(current, id) ==> same_status(
                #[trigger] follow(known, updates(previous, current))[id],
                map_of(current)[id],
            ),
        forall|id: Seq<char>|
            !has_key(current, id) && known.contains_key(id) ==> #[trigger] follow(
                known,
                updates(previous, current),
            )[id] == known[id],
    decreases current.len(),
{
    let after = follow(known, updates(previous, current));
    if current.len() > 0 {
        let front = current.drop_last();
        let (last, sandbox) = current.last();
        lemma_keyed_split(current);
        lemma_follow_updates(known, previous, front);
        let before = follow(known, updates(previous, front));
        if is_news(previous, last, sandbox) {
            let news = updates(previous, front).push(WatchEventView::Sandbox(sandbox));
            assert(news.drop_last() =~= updates(previous, front));
            assert(current[current.len() - 1].0 == sandbox.id);
            assert(after == before.insert(last, sandbox));
            law_same_status_reflexive(sandbox);
        } else {
            assert(after == before);
            assert(known.contains_key(last));
            law_same_status_transitive(known[last], map_of(previous)[last], sandbox);
        }
        assert forall|id: Seq<char>| has_key(current, id) implies same_status(
            #[trigger] after[id],
            map_of(current)[id],
        ) by {
            if id != last {
                assert(has_key(front, id));
                assert(same_status(before[id], map_of(front)[id]));
            }
        }
    } else {
        assert(updates(previous, current) =~= Seq::empty());
    }
}

/// After the reports of what is gone, a subscriber has forgotten exactly that.
proof fn lemma_follow_deletions(
    known: Map<Seq<char>, DriverSandboxView>,
    previous: Snapshot,
    current: Snapshot,
)
    ensures
        forall|id: Seq<char>| #[trigger]
            follow(known, deletions(previous, current)).contains_key(id) == (known.contains_key(id)
                && !(has_key(previous, id) && !has_key(current, id))),
        forall|id: Seq<char>|
            has_key(current, id) && known.contains_key(id) ==> #[trigger] follow(
                known,
                deletions(previous, current),
            )[id] == known[id],
    decreases previous.len(),
{
    let after = follow(known, deletions(previous, current));
    if previous.len() > 0 {
        let front = previous.drop_last();
        let last = previous.last().0;
        lemma_follow_deletions(known, front, current);
        let before = follow(known, deletions(front, current));
        assert forall|id: Seq<char>| #[trigger] has_key(previous, id) == (has_key(front, id) || id
            == last) by {
            if has_key(previous, id) {
                let i = position(previous, id);
                assert(previous[i].0 == id);
                if i < front.len() {
                    assert(front[i].0 == id);
                }
            }
            if has_key(front, id) {
                assert(previous[position(front, id)].0 == id);
            }
            if id == last {
                assert(previous[previous.len() - 1].0 == id);
            }
        }
        if has_key(current, last) {
            assert(after == before);
        } else {
            let gone = deletions(front, current).push(WatchEventView::Deleted(last));
            assert(gone.drop_last() =~= deletions(front, current));
            assert(after == before.remove(last));
        }
        assert forall|id: Seq<char>| #[trigger] after.contains_key(id) == (known.contains_key(id)
            && !(has_key(previous, id) && !has_key(current, id))) by {
            assert(before.contains_key(id) == (known.contains_key(id) && !(has_key(front, id)
                && !has_key(current, id))));
            assert(has_key(previous, id) == (has_key(front, id) || id == last));
        }
    }
}

/// A subscriber that is in step with a watch stays in step: after the events of
/// the next list it knows which sandboxes there are, and the status of each.
pub proof fn law_subscriber_stays_in_step(
    known: Map<Seq<char>, DriverSandboxView>,
    previous: Snapshot,
    current: Snapshot,
)
    requires
        keyed_by_id(previous),
        keyed_by_id(current),
        in_step(known, previous),
    ensures
        in_step(follow(known, changes(previous, current)), current),
{
    let news = updates(previous, current);
    let middle = follow(known, news);
    let after = follow(known, changes(previous, current));
    lemma_follow_concat(known, news, deletions(previous, current));
    lemma_follow_updates(known, previous, current);
    lemma_follow_deletions(middle, previous, current);
    assert forall|id: Seq<char>| #[trigger] after.contains_key(id) == has_key(current, id) by {
        assert(middle.contains_key(id) == (known.contains_key(id) || has_key(current, id)));
        assert(known.contains_key(id) == has_key(previous, id));
    }
    assert forall|id: Seq<char>| #[trigger] after.contains_key(id) implies same_status(
        after[id],
        map_of(current)[id],
    ) by {
        assert(has_key(current, id));
        assert(middle.contains_key(id));
        assert(after[id] == middle[id]);
    }
}

/// A subscriber that starts with a watch is in step: the first events tell it of
/// every sandbox, as it is.
pub proof fn law_subscriber_starts_in_step(current: Snapshot)
    requires
        keyed_by_id(current),
    ensures
        follow(Map::empty(), announcements(current)) == map_of(current),
        in_step(follow(Map::empty(), announcements(current)), current),
    decreases current.len(),
{
    let after = follow(Map::empty(), announcements(current));
    if current.len() == 0 {
        assert(announcements(current) =~= Seq::empty());
        assert(after =~= map_of(current));
    } else {
        let front = current.drop_last();
        let (last, sandbox) = current.last();
        lemma_keyed_split(current);
        law_subscriber_starts_in_step(front);
        assert(announcements(current).drop_last() =~= announcements(front));
        assert(announcements(current).last() == WatchEventView::Sandbox(sandbox));
        assert(current[current.len() - 1].0 == sandbox.id);
        assert(after == map_of(front).insert(last, sandbox));
        assert forall|id: Seq<char>| #[trigger] after.contains_key(id) == map_of(
            current,
        ).contains_key(id) by {
            assert(has_key(current, id) == (has_key(front, id) || id == last));
        }
        assert forall|id: Seq<char>| #[trigger] after.contains_key(id) implies after[id] == map_of(
            current,
        )[id] by {
            if id != last {
                assert(has_key(front, id));
            }
        }
        assert(after =~= map_of(current));
    }
    assert forall|id: Seq<char>| #[trigger] after.contains_key(id) implies same_status(
        after[id],
        map_of(current)[id],
    ) by {
        law_same_status_reflexive(after[id]);
    }
}

/// Where every sandbox is still there in the same status and none came, nothing
/// is reported; where one is new, changed or gone, something is.
pub proof fn law_silence_means_no_change(previous: Snapshot, current: Snapshot)
    requires
        keyed_by_id(previous),
        keyed_by_id(current),
    ensures
        changes(previous, current).len() == 0 <==> in_step(map_of(previous), current),
{
    lemma_no_updates(previous, current);
    lemma_no_deletions(previous, current);
    let known = map_of(previous);
    if changes(previous, current).len() == 0 {
        assert forall|id: Seq<char>| #[trigger] known.contains_key(id) == has_key(current, id) by {
            if has_key(current, id) {
                let i = position(current, id);
                assert(current[i].0 == id);
                assert(!is_news(previous, current[i].0, current[i].1));
            }
            if has_key(previous, id) {
                let i = position(previous, id);
                assert(previous[i].0 == id);
                assert(has_key(current, previous[i].0));
            }
        }
        assert forall|id: Seq<char>| #[trigger] known.contains_key(id) implies same_status(
            known[id],
            map_of(current)[id],
        ) by {
            assert(has_key(current, id));
            let i = position(current, id);
            assert(current[i].0 == id);
            assert(!is_news(previous, current[i].0, current[i].1));
        }
    }
    if in_step(known, current) {
        assert forall|i: int| 0 <= i < current.len() implies !is_news(
            previous,
            (#[trigger] current[i]).0,
            current[i].1,
        ) by {
            lemma_position(current, i);
            assert(known.contains_key(current[i].0));
        }
        assert forall|i: int| 0 <= i < previous.len() implies has_key(
            current,
            (#[trigger] previous[i]).0,
        ) by {
            lemma_position(previous, i);
            assert(known.contains_key(previous[i].0));
        }
    }
}

/// There are no reports of new or changed sandboxes if and only if there are none.
proof fn lemma_no_updates(previous: Snapshot, current: Snapshot)
    ensures
        updates(previous, current).len() == 0 <==> forall|i: int|
            0 <= i < current.len() ==> !is_news(
                previous,
                (#[trigger] current[i]).0,
                current[i].1,
            ),
    decreases current.len(),
{
    if current.len() > 0 {
        let front = current.drop_last();
        let n = current.len() - 1;
        lemma_no_updates(previous, front);
        if updates(previous, current).len() == 0 {
            assert forall|i: int| 0 <= i < current.len() implies !is_news(
                previous,
                (#[trigger] current[i]).0,
                current[i].1,
            ) by {
                if i < n {
                    assert(front[i] == current[i]);
                }
            }
        }
        if forall|i: int|
            0 <= i < current.len() ==> !is_news(previous, (#[trigger] current[i]).0, current[i].1) {
            assert forall|i: int| 0 <= i < front.len() implies !is_news(
                previous,
                (#[trigger] front[i]).0,
                front[i].1,
            ) by {
                assert(current[i] == front[i]);
            }
            assert(!is_news(previous, current[n].0, current[n].1));
        }
    }
}

/// There are no reports of sandboxes that are gone if and only if there are none.
proof fn lemma_no_deletions(previous: Snapshot, current: Snapshot)
    ensures
        deletions(previous, current).len() == 0 <==> forall|i: int|
            0 <= i < previous.len() ==> has_key(current, (#[trigger] previous[i]).0),
    decreases previous.len(),
{
    if previous.len() > 0 {
        let front = previous.drop_last();
        let n = previous.len() - 1;
        lemma_no_deletions(front, current);
        if deletions(previous, current).len() == 0 {
            assert forall|i: int| 0 <= i < previous.len() implies has_key(
                current,
                (#[trigger] previous[i]).0,
            ) by {
                if i < n {
                    assert(front[i] == previous[i]);
                }
            }
        }
        if forall|i: int| 0 <= i < previous.len() ==> has_key(current, (#[trigger] previous[i]).0) {
            assert forall|i: int| 0 <= i < front.len() implies has_key(
                current,
                (#[trigger] front[i]).0,
            ) by {
                assert(previous[i] == front[i]);
            }
            assert(has_key(current, previous[n].0));
        }
    }
}

/// The snapshot that a watch takes of a list of containers is keyed by id, and
/// holds an id if and only if some container has it.
pub proof fn law_polled_is_keyed_by_id(entries: Seq<EntryView>, id: Seq<char>)
    ensures
        keyed_by_id(polled(entries)),
        has_key(polled(entries), id) <==> exists|i: int|
            0 <= i < entries.len() && (sandbox_of(#[trigger] entries[i]) matches Some(s) && s.id
                == id),
    decreases entries.len(),
{
    if entries.len() > 0 {
        let front = entries.drop_last();
        let n = entries.len() - 1;
        law_polled_is_keyed_by_id(front, id);
        let before = polled(front);
        if let Some(sandbox) = sandbox_of(entries.last()) {
            lemma_keyed_inserted(before, sandbox);
            lemma_inserted(before, sandbox.id, sandbox);
            let after = inserted(before, sandbox.id, sandbox);
            assert(map_of(after).contains_key(id) == (map_of(before).contains_key(id) || id
                == sandbox.id));
        }
        if exists|i: int|
            0 <= i < front.len() && (sandbox_of(#[trigger] front[i]) matches Some(s) && s.id
                == id) {
            let i = choose|i: int|
                0 <= i < front.len() && (sandbox_of(#[trigger] front[i]) matches Some(s) && s.id
                    == id);
            assert(entries[i] == front[i]);
        }
        if exists|i: int|
            0 <= i < entries.len() && (sandbox_of(#[trigger] entries[i]) matches Some(s) && s.id
                == id) {
            let i = choose|i: int|
                0 <= i < entries.len() && (sandbox_of(#[trigger] entries[i]) matches Some(s)
                    && s.id == id);
            if i < n {
                assert(front[i] == entries[i]);
            }
        }
        if sandbox_of(entries[n]) matches Some(s) && s.id == id {
            assert(sandbox_of(entries.last()) matches Some(s) && s.id == id);
        }
    }
}

/// Of containers with the same sandbox id, a watch goes by the last one listed.
pub proof fn law_last_container_counts(entries: Seq<EntryView>, i: int, sandbox: DriverSandboxView)
    requires
        0 <= i < entries.len(),
        sandbox_of(entries[i]) == Some(sandbox),
        forall|j: int|
            i < j < entries.len() ==> (sandbox_of(#[trigger] entries[j]) matches Some(s) ==> s.id
                != sandbox.id),
    ensures
        has_key(polled(entries), sandbox.id),
        map_of(polled(entries))[sandbox.id] == sandbox,
    decreases entries.len(),
{
    let front = entries.drop_last();
    let n = entries.len() - 1;
    law_polled_is_keyed_by_id(front, sandbox.id);
    let before = polled(front);
    if i < n {
        assert(front[i] == entries[i]);
        assert forall|j: int| i < j < front.len() implies (sandbox_of(#[trigger] front[j]) matches
            Some(s) ==> s.id != sandbox.id) by {
            assert(front[j] == entries[j]);
        }
        law_last_container_counts(front, i, sandbox);
    }
    if let Some(last) = sandbox_of(entries[n]) {
        lemma_inserted(before, last.id, last);
        assert(map_of(polled(entries)).contains_key(sandbox.id));
    }
}

/// The pause after `failures` failures to list in a row.
pub open spec fn pause_after(failures: nat) -> int
    decreases failures,
{
    if failures == 0 {
        POLL_INTERVAL_SECS as int
    } else {
        next_backoff(pause_after((failures - 1) as nat))
    }
}

/// The pause never shrinks while failures last, never leaves its bounds, and
/// reaches the longest pause with the fourth failure.
pub proof fn law_backoff_grows_to_its_limit(failures: nat)
    ensures
        POLL_INTERVAL_SECS <= pause_after(failures) <= POLL_MAX_BACKOFF_SECS,
        pause_after(failures) <= pause_after(failures + 1),
        failures >= 4 ==> pause_after(failures) == POLL_MAX_BACKOFF_SECS,
    decreases failures,
{
    if failures > 0 {
        law_backoff_grows_to_its_limit((failures - 1) as nat);
    }
    reveal_with_fuel(pause_after, 6);
}

/// What a watch has seen last, after a start and a list of polls; a poll that
/// failed is `None`.
pub open spec fn seen_after(start: Snapshot, polls: Seq<Option<Snapshot>>) -> Snapshot
    decreases polls.len(),
{
    if polls.len() == 0 {
        start
    } else {
        match polls.last() {
            Some(current) => current,
            None => seen_after(start, polls.drop_last()),
        }
    }
}

/// What a watch has reported, after a start and a list of polls.
pub open spec fn reported_after(start: Snapshot, polls: Seq<Option<Snapshot>>) -> Seq<
    WatchEventView,
>
    decreases polls.len(),
{
    if polls.len() == 0 {
        announcements(start)
    } else {
        let before = polls.drop_last();
        match polls.last() {
            Some(current) => reported_after(start, before) + changes(
                seen_after(start, before),
                current,
            ),
            None => reported_after(start, before),
        }
    }
}

/// Through a whole watch, failed polls included, a subscriber that follows every
/// event knows the sandboxes that were seen last, and the status of each.
pub proof fn law_subscriber_is_in_step_throughout(start: Snapshot, polls: Seq<Option<Snapshot>>)
    requires
        keyed_by_id(start),
        forall|i: int|
            0 <= i < polls.len() ==> ((#[trigger] polls[i]) matches Some(s) ==> keyed_by_id(s)),
    ensures
        keyed_by_id(seen_after(start, polls)),
        in_step(follow(Map::empty(), reported_after(start, polls)), seen_after(start, polls)),
    decreases polls.len(),
{
    if polls.len() == 0 {
        law_subscriber_starts_in_step(start);
    } else {
        let before = polls.drop_last();
        assert forall|i: int| 0 <= i < before.len() implies ((#[trigger] before[i]) matches Some(s)
            ==> keyed_by_id(s)) by {
            assert(before[i] == polls[i]);
        }
        law_subscriber_is_in_step_throughout(start, before);
        let previous = seen_after(start, before);
        let known = follow(Map::empty(), reported_after(start, before));
        if let Some(current) = polls.last() {
            assert(polls[polls.len() - 1] == Some(current));
            law_subscriber_stays_in_step(known, previous, current);
            lemma_follow_concat(
                Map::empty(),
                reported_after(start, before),
                changes(previous, current),
            );
        }
    }
}

} // verus!
