//! Laws on watching sandboxes.
use crate::cli::ContainerCliError;
use crate::cli::ContainerEntry;
use crate::cli::EntryView;
use crate::compute::DriverSandbox;
use crate::compute::DriverSandboxView;
use crate::compute::WatchEventView;
use crate::compute::WatchPayload;
use crate::compute::WatchSandboxesEvent;
use crate::laws::sandboxes::carries;
use crate::laws::sandboxes::is_sandbox;
use crate::laws::sandboxes::lemma_is_sandbox;
use crate::laws::sandboxes::lemma_reads_as;
use crate::laws::sandboxes::reads_as;
use crate::observe::entry_views;
use crate::observe::sandbox_of;
use crate::string_map::has_key;
use crate::string_map::inserted;
use crate::string_map::lemma_position;
use crate::string_map::map_of;
use crate::string_map::position;
use crate::string_map::StringMap;
use crate::watcher::announcements;
use crate::watcher::changes;
use crate::watcher::deletions;
use crate::watcher::event_views;
use crate::watcher::events_between;
use crate::watcher::follow;
use crate::watcher::is_news;
use crate::watcher::keyed_by_id;
use crate::watcher::law_last_container_counts;
use crate::watcher::law_polled_is_keyed_by_id;
use crate::watcher::law_subscriber_is_in_step_throughout;
use crate::watcher::next_backoff;
use crate::watcher::poll_managed_sandboxes;
use crate::watcher::polled;
use crate::watcher::reported_after;
use crate::watcher::same_status;
use crate::watcher::sandbox_status_eq;
use crate::watcher::seen_after;
use crate::watcher::snapshot;
use crate::watcher::start_watch;
use crate::watcher::updates;
use crate::watcher::Snapshot;
use crate::watcher::WatchState;
use vstd::prelude::*;

verus! {

/// Two sandboxes compare as equal if and only if neither has a status, or both
/// have one, of the same container, both or neither being deleted, with
/// conditions that agree one by one in type, status and reason, as texts.
pub proof fn law_statuses_are_equal_only_in_every_reason(
    a: DriverSandbox,
    b: DriverSandbox,
    res: bool,
)
    requires
        call_ensures(sandbox_status_eq, (&a, &b), res),
    ensures
        res <==> match (a.status, b.status) {
            (Some(x), Some(y)) => {
                &&& x.instance_id@ == y.instance_id@
                &&& x.deleting == y.deleting
                &&& x.conditions@.len() == y.conditions@.len()
                &&& forall|i: int|
                    0 <= i < x.conditions@.len() ==> {
                        &&& (#[trigger] x.conditions@[i]).type_@ == y.conditions@[i].type_@
                        &&& x.conditions@[i].status@ == y.conditions@[i].status@
                        &&& x.conditions@[i].reason@ == y.conditions@[i].reason@
                    }
            },
            (None, None) => true,
            _ => false,
        },
{
    if let (Some(x), Some(y)) = (a.status, b.status) {
        assert(a@.status == Some(x@) && b@.status == Some(y@));
        assert forall|i: int| 0 <= i < x.conditions@.len() implies x@.conditions[i]
            == #[trigger] x.conditions@[i]@ by {}
        assert forall|i: int| 0 <= i < y.conditions@.len() implies y@.conditions[i]
            == #[trigger] y.conditions@[i]@ by {}
        if res {
            assert forall|i: int| 0 <= i < x.conditions@.len() implies {
                &&& (#[trigger] x.conditions@[i]).type_@ == y.conditions@[i].type_@
                &&& x.conditions@[i].status@ == y.conditions@[i].status@
                &&& x.conditions@[i].reason@ == y.conditions@[i].reason@
            } by {
                let c = x@.conditions[i];
                assert(c == x.conditions@[i]@);
                assert(y@.conditions[i] == y.conditions@[i]@);
            }
        }
        if x.instance_id@ == y.instance_id@ && x.deleting == y.deleting && x.conditions@.len()
            == y.conditions@.len() && (forall|i: int|
            0 <= i < x.conditions@.len() ==> {
                &&& (#[trigger] x.conditions@[i]).type_@ == y.conditions@[i].type_@
                &&& x.conditions@[i].status@ == y.conditions@[i].status@
                &&& x.conditions@[i].reason@ == y.conditions@[i].reason@
            }) {
            assert forall|i: int| 0 <= i < x@.conditions.len() implies {
                let c = #[trigger] x@.conditions[i];
                let d = y@.conditions[i];
                c.type_ == d.type_ && c.status == d.status && c.reason == d.reason
            } by {
                assert(x@.conditions[i] == x.conditions@[i]@);
                assert(y@.conditions[i] == y.conditions@[i]@);
            }
        }
    }
}

/// Whether two sandboxes are in the same status: of the same container, both or
/// neither being deleted, with conditions of the same types, statuses and reasons.
pub open spec fn alike(a: DriverSandboxView, b: DriverSandboxView) -> bool {
    match (a.status, b.status) {
        (Some(x), Some(y)) => {
            &&& x.instance_id == y.instance_id
            &&& x.deleting == y.deleting
            &&& x.conditions.len() == y.conditions.len()
            &&& forall|i: int|
                0 <= i < x.conditions.len() ==> {
                    &&& (#[trigger] x.conditions[i]).type_ == y.conditions[i].type_
                    &&& x.conditions[i].status == y.conditions[i].status
                    &&& x.conditions[i].reason == y.conditions[i].reason
                }
        },
        (None, None) => true,
        _ => false,
    }
}

/// To be in the same status in contracts is to be alike.
proof fn lemma_alike(a: DriverSandboxView, b: DriverSandboxView)
    ensures
        same_status(a, b) == alike(a, b),
{
}

/// Whether a snapshot holds the sandbox `id` with a status like that of `sandbox`.
pub open spec fn already_told(
    previous: Snapshot,
    id: Seq<char>,
    sandbox: DriverSandboxView,
) -> bool {
    exists|j: int|
        0 <= j < previous.len() && (#[trigger] previous[j]).0 == id && alike(
            previous[j].1,
            sandbox,
        )
}

/// Whether a snapshot holds the sandbox `id`.
pub open spec fn knows(s: Snapshot, id: Seq<char>) -> bool {
    exists|j: int| 0 <= j < s.len() && (#[trigger] s[j]).0 == id
}

/// What is news is not told already.
proof fn lemma_is_news(previous: Snapshot, id: Seq<char>, sandbox: DriverSandboxView)
    requires
        keyed_by_id(previous),
    ensures
        is_news(previous, id, sandbox) == !already_told(previous, id, sandbox),
{
    if knows(previous, id) {
        let j = choose|j: int| 0 <= j < previous.len() && (#[trigger] previous[j]).0 == id;
        lemma_position(previous, j);
        lemma_alike(previous[j].1, sandbox);
        assert(map_of(previous)[id] == previous[j].1);
        if already_told(previous, id, sandbox) {
            let k = choose|k: int|
                0 <= k < previous.len() && (#[trigger] previous[k]).0 == id && alike(
                    previous[k].1,
                    sandbox,
                );
            lemma_position(previous, k);
        }
    } else {
        assert(!has_key(previous, id));
    }
}

/// What is reported as new or changed.
proof fn lemma_updates(previous: Snapshot, current: Snapshot, event: WatchEventView)
    requires
        keyed_by_id(previous),
    ensures
        updates(previous, current).contains(event) <==> exists|i: int|
            0 <= i < current.len() && event == WatchEventView::Sandbox((#[trigger] current[i]).1)
                && !already_told(previous, current[i].0, current[i].1),
    decreases current.len(),
{
    if current.len() > 0 {
        let front = current.drop_last();
        let n = current.len() - 1;
        let before = updates(previous, front);
        let all = updates(previous, current);
        lemma_updates(previous, front, event);
        lemma_is_news(previous, current[n].0, current[n].1);
        if all.contains(event) {
            let k = choose|k: int| 0 <= k < all.len() && all[k] == event;
            if k < before.len() {
                assert(before[k] == event);
                let i = choose|i: int|
                    0 <= i < front.len() && event == WatchEventView::Sandbox(
                        (#[trigger] front[i]).1,
                    ) && !already_told(previous, front[i].0, front[i].1);
                assert(current[i] == front[i]);
            } else {
                assert(event == WatchEventView::Sandbox(current[n].1));
            }
        }
        if exists|i: int|
            0 <= i < current.len() && event == WatchEventView::Sandbox((#[trigger] current[i]).1)
                && !already_told(previous, current[i].0, current[i].1) {
            let i = choose|i: int|
                0 <= i < current.len() && event == WatchEventView::Sandbox(
                    (#[trigger] current[i]).1,
                ) && !already_told(previous, current[i].0, current[i].1);
            if i < n {
                assert(front[i] == current[i]);
                let k = choose|k: int| 0 <= k < before.len() && before[k] == event;
                assert(all[k] == event);
            } else {
                assert(all[all.len() - 1] == event);
            }
        }
    }
}

/// What is reported as gone.
proof fn lemma_deletions(previous: Snapshot, current: Snapshot, event: WatchEventView)
    ensures
        deletions(previous, current).contains(event) <==> exists|j: int|
            0 <= j < previous.len() && event == WatchEventView::Deleted((#[trigger] previous[j]).0)
                && !knows(current, previous[j].0),
    decreases previous.len(),
{
    if previous.len() > 0 {
        let front = previous.drop_last();
        let n = previous.len() - 1;
        let before = deletions(front, current);
        let all = deletions(previous, current);
        lemma_deletions(front, current, event);
        assert(has_key(current, previous[n].0) == knows(current, previous[n].0));
        if all.contains(event) {
            let k = choose|k: int| 0 <= k < all.len() && all[k] == event;
            if k < before.len() {
                assert(before[k] == event);
                let j = choose|j: int|
                    0 <= j < front.len() && event == WatchEventView::Deleted(
                        (#[trigger] front[j]).0,
                    ) && !knows(current, front[j].0);
                assert(previous[j] == front[j]);
            } else {
                assert(event == WatchEventView::Deleted(previous[n].0));
            }
        }
        if exists|j: int|
            0 <= j < previous.len() && event == WatchEventView::Deleted(
                (#[trigger] previous[j]).0,
            ) && !knows(current, previous[j].0) {
            let j = choose|j: int|
                0 <= j < previous.len() && event == WatchEventView::Deleted(
                    (#[trigger] previous[j]).0,
                ) && !knows(current, previous[j].0);
            if j < n {
                assert(front[j] == previous[j]);
                let k = choose|k: int| 0 <= k < before.len() && before[k] == event;
                assert(all[k] == event);
            } else {
                assert(all[all.len() - 1] == event);
            }
        }
    }
}

/// From one snapshot to the next, an event reports a sandbox if and only if it is
/// there and was not there before with a status like it, and an event reports an
/// id as gone if and only if it was there before and is not there now.
pub proof fn law_changes_are_what_differs(
    previous: Snapshot,
    current: Snapshot,
    sandbox: DriverSandboxView,
    id: Seq<char>,
)
    requires
        keyed_by_id(previous),
        keyed_by_id(current),
    ensures
        changes(previous, current).contains(WatchEventView::Sandbox(sandbox)) <==> exists|i: int|
            0 <= i < current.len() && (#[trigger] current[i]).1 == sandbox && !already_told(
                previous,
                current[i].0,
                sandbox,
            ),
        changes(previous, current).contains(WatchEventView::Deleted(id)) <==> knows(previous, id)
            && !knows(current, id),
        !changes(previous, current).contains(WatchEventView::Empty),
{
    lemma_changes_contain(previous, current, WatchEventView::Sandbox(sandbox));
    lemma_changes_contain(previous, current, WatchEventView::Deleted(id));
    lemma_changes_contain(previous, current, WatchEventView::Empty);
    if changes(previous, current).contains(WatchEventView::Sandbox(sandbox)) {
        let i = choose|i: int|
            0 <= i < current.len() && WatchEventView::Sandbox(sandbox) == WatchEventView::Sandbox(
                (#[trigger] current[i]).1,
            ) && !already_told(previous, current[i].0, current[i].1);
        assert(current[i].1 == sandbox);
    }
    if knows(previous, id) && !knows(current, id) {
        let j = choose|j: int| 0 <= j < previous.len() && (#[trigger] previous[j]).0 == id;
        assert(WatchEventView::Deleted(id) == WatchEventView::Deleted(previous[j].0));
    }
}

/// An event is among the changes if it is among the updates or the deletions.
proof fn lemma_changes_contain(previous: Snapshot, current: Snapshot, event: WatchEventView)
    requires
        keyed_by_id(previous),
    ensures
        changes(previous, current).contains(event) <==> {
            ||| exists|i: int|
                0 <= i < current.len() && event == WatchEventView::Sandbox(
                    (#[trigger] current[i]).1,
                ) && !already_told(previous, current[i].0, current[i].1)
            ||| exists|j: int|
                0 <= j < previous.len() && event == WatchEventView::Deleted(
                    (#[trigger] previous[j]).0,
                ) && !knows(current, previous[j].0)
        },
{
    let news = updates(previous, current);
    let gone = deletions(previous, current);
    let all = changes(previous, current);
    lemma_updates(previous, current, event);
    lemma_deletions(previous, current, event);
    if all.contains(event) {
        let k = choose|k: int| 0 <= k < all.len() && all[k] == event;
        if k < news.len() {
            assert(news[k] == event);
        } else {
            assert(gone[k - news.len()] == event);
        }
    }
    if news.contains(event) {
        let k = choose|k: int| 0 <= k < news.len() && news[k] == event;
        assert(all[k] == event);
    }
    if gone.contains(event) {
        let k = choose|k: int| 0 <= k < gone.len() && gone[k] == event;
        assert(all[news.len() + k] == event);
    }
}

/// A sandbox whose reason is another than before is reported, as it is now.
pub proof fn law_another_reason_is_reported(
    previous: Snapshot,
    current: Snapshot,
    i: int,
    j: int,
    c: int,
)
    requires
        keyed_by_id(previous),
        keyed_by_id(current),
        0 <= i < current.len(),
        0 <= j < previous.len(),
        previous[j].0 == current[i].0,
        previous[j].1.status matches Some(x) && current[i].1.status matches Some(y) && 0 <= c
            < x.conditions.len() && c < y.conditions.len() && x.conditions[c].reason
            != y.conditions[c].reason,
    ensures
        changes(previous, current).contains(WatchEventView::Sandbox(current[i].1)),
{
    let sandbox = current[i].1;
    law_changes_are_what_differs(previous, current, sandbox, current[i].0);
    assert forall|k: int| 0 <= k < previous.len() && (#[trigger] previous[k]).0
        == current[i].0 implies !alike(previous[k].1, sandbox) by {
        lemma_position(previous, j);
        lemma_position(previous, k);
        let x = previous[j].1.status->0.conditions[c];
        assert(x.reason != sandbox.status->0.conditions[c].reason);
    }
    assert(!already_told(previous, current[i].0, sandbox));
}

/// A sandbox that was not there before is reported, as it is.
pub proof fn law_new_sandboxes_are_reported(previous: Snapshot, current: Snapshot, i: int)
    requires
        keyed_by_id(previous),
        keyed_by_id(current),
        0 <= i < current.len(),
        !knows(previous, current[i].0),
    ensures
        changes(previous, current).contains(WatchEventView::Sandbox(current[i].1)),
{
    law_changes_are_what_differs(previous, current, current[i].1, current[i].0);
    assert(!already_told(previous, current[i].0, current[i].1));
}

/// Nothing is reported twice.
pub proof fn law_nothing_is_reported_twice(previous: Snapshot, current: Snapshot)
    requires
        keyed_by_id(previous),
        keyed_by_id(current),
    ensures
        changes(previous, current).no_duplicates(),
{
    let news = updates(previous, current);
    let gone = deletions(previous, current);
    let all = changes(previous, current);
    lemma_updates_distinct(previous, current);
    lemma_deletions_distinct(previous, current);
    assert forall|a: int, b: int| 0 <= a < all.len() && 0 <= b < all.len() && a != b implies all[a]
        != all[b] by {
        if a < news.len() {
            assert(all[a] == news[a]);
        } else {
            assert(all[a] == gone[a - news.len()]);
        }
        if b < news.len() {
            assert(all[b] == news[b]);
        } else {
            assert(all[b] == gone[b - news.len()]);
        }
    }
}

/// No update is reported twice, and each is one.
proof fn lemma_updates_distinct(previous: Snapshot, current: Snapshot)
    requires
        keyed_by_id(previous),
        keyed_by_id(current),
    ensures
        updates(previous, current).no_duplicates(),
        forall|k: int|
            0 <= k < updates(previous, current).len() ==> (#[trigger] updates(
                previous,
                current,
            )[k]) is Sandbox,
    decreases current.len(),
{
    if current.len() > 0 {
        let front = current.drop_last();
        let n = current.len() - 1;
        assert(keyed_by_id(front)) by {
            assert forall|i: int, j: int| 0 <= i < j < front.len() implies (
            #[trigger] front[i]).0 != (#[trigger] front[j]).0 by {
                assert(current[i].0 != current[j].0);
            }
            assert forall|i: int| 0 <= i < front.len() implies (#[trigger] front[i]).0
                == front[i].1.id by {
                assert(current[i].0 == current[i].1.id);
            }
        }
        lemma_updates_distinct(previous, front);
        let before = updates(previous, front);
        let event = WatchEventView::Sandbox(current[n].1);
        lemma_updates(previous, front, event);
        if before.contains(event) {
            let i = choose|i: int|
                0 <= i < front.len() && event == WatchEventView::Sandbox((#[trigger] front[i]).1)
                    && !already_told(previous, front[i].0, front[i].1);
            assert(current[i] == front[i]);
            assert(current[i].0 == current[i].1.id);
            assert(current[n].0 == current[n].1.id);
            assert(current[i].0 != current[n].0);
        }
    }
}

/// No deletion is reported twice, and each is one.
proof fn lemma_deletions_distinct(previous: Snapshot, current: Snapshot)
    requires
        keyed_by_id(previous),
    ensures
        deletions(previous, current).no_duplicates(),
        forall|k: int|
            0 <= k < deletions(previous, current).len() ==> (#[trigger] deletions(
                previous,
                current,
            )[k]) is Deleted,
    decreases previous.len(),
{
    if previous.len() > 0 {
        let front = previous.drop_last();
        let n = previous.len() - 1;
        assert(keyed_by_id(front)) by {
            assert forall|i: int, j: int| 0 <= i < j < front.len() implies (
            #[trigger] front[i]).0 != (#[trigger] front[j]).0 by {
                assert(previous[i].0 != previous[j].0);
            }
            assert forall|i: int| 0 <= i < front.len() implies (#[trigger] front[i]).0
                == front[i].1.id by {
                assert(previous[i].0 == previous[i].1.id);
            }
        }
        lemma_deletions_distinct(front, current);
        let before = deletions(front, current);
        let event = WatchEventView::Deleted(previous[n].0);
        lemma_deletions(front, current, event);
        if before.contains(event) {
            let j = choose|j: int|
                0 <= j < front.len() && event == WatchEventView::Deleted((#[trigger] front[j]).0)
                    && !knows(current, front[j].0);
            assert(previous[j] == front[j]);
            assert(previous[j].0 != previous[n].0);
        }
    }
}

/// Whether an event tells of a sandbox, as it is.
pub open spec fn tells(event: WatchSandboxesEvent, sandbox: DriverSandbox) -> bool {
    event.payload matches Some(WatchPayload::Sandbox(e)) && e.sandbox matches Some(told) && told@
        == sandbox@
}

/// Whether an event tells that the sandbox `id` is gone.
pub open spec fn tells_gone(event: WatchSandboxesEvent, id: Seq<char>) -> bool {
    event.payload matches Some(WatchPayload::Deleted(e)) && e.sandbox_id@ == id
}

/// Whether a map holds the sandbox `id` with a status that compares as equal.
pub open spec fn holds_alike(
    m: StringMap<DriverSandbox>,
    id: Seq<char>,
    sandbox: DriverSandbox,
) -> bool {
    exists|j: int|
        0 <= j < m.entries().len() && (#[trigger] m.entries()[j]).0 == id && alike(
            m.entries()[j].1@,
            sandbox@,
        )
}

/// Whether a map holds the sandbox `id`.
pub open spec fn holds(m: StringMap<DriverSandbox>, id: Seq<char>) -> bool {
    exists|j: int| 0 <= j < m.entries().len() && (#[trigger] m.entries()[j]).0 == id
}

/// Between two polls, each sandbox that is there and was not there alike is told,
/// each that was there and is no longer is told as gone, and no event tells
/// anything else.
pub proof fn law_events_tell_what_differs(
    previous: StringMap<DriverSandbox>,
    current: StringMap<DriverSandbox>,
    res: Vec<WatchSandboxesEvent>,
    i: int,
)
    requires
        keyed_by_id(snapshot(previous)),
        keyed_by_id(snapshot(current)),
        call_ensures(events_between, (&previous, &current), res),
    ensures
        0 <= i < current.entries().len() && !holds_alike(
            previous,
            current.entries()[i].0,
            current.entries()[i].1,
        ) ==> exists|k: int|
            0 <= k < res@.len() && tells(#[trigger] res@[k], current.entries()[i].1),
        0 <= i < previous.entries().len() && !holds(current, previous.entries()[i].0)
            ==> exists|k: int|
            0 <= k < res@.len() && tells_gone(#[trigger] res@[k], previous.entries()[i].0),
        0 <= i < res@.len() ==> {
            ||| exists|k: int|
                0 <= k < current.entries().len() && tells(
                    res@[i],
                    (#[trigger] current.entries()[k]).1,
                ) && !holds_alike(previous, current.entries()[k].0, current.entries()[k].1)
            ||| exists|k: int|
                0 <= k < previous.entries().len() && tells_gone(
                    res@[i],
                    (#[trigger] previous.entries()[k]).0,
                ) && !holds(current, previous.entries()[k].0)
        },
{
    let p = snapshot(previous);
    let c = snapshot(current);
    let all = changes(p, c);
    assert(event_views(res@) == all);
    assert(all.len() == res@.len());
    assert forall|k: int| 0 <= k < res@.len() implies all[k] == #[trigger] res@[k]@ by {
        assert(event_views(res@)[k] == res@[k]@);
    }
    if 0 <= i < current.entries().len() && !holds_alike(
        previous,
        current.entries()[i].0,
        current.entries()[i].1,
    ) {
        let (id, sandbox) = current.entries()[i];
        assert(c[i] == (id, sandbox@));
        lemma_holds_alike(previous, id, sandbox);
        law_changes_are_what_differs(p, c, sandbox@, id);
        let k = choose|k: int| 0 <= k < all.len() && all[k] == WatchEventView::Sandbox(sandbox@);
        assert(tells(res@[k], sandbox));
    }
    if 0 <= i < previous.entries().len() && !holds(current, previous.entries()[i].0) {
        let (id, sandbox) = previous.entries()[i];
        assert(p[i] == (id, sandbox@));
        lemma_holds(previous, id);
        lemma_holds(current, id);
        law_changes_are_what_differs(p, c, sandbox@, id);
        let k = choose|k: int| 0 <= k < all.len() && all[k] == WatchEventView::Deleted(id);
        assert(tells_gone(res@[k], id));
    }
    if 0 <= i < res@.len() {
        let event = all[i];
        assert(all.contains(event));
        lemma_changes_contain(p, c, event);
        if exists|k: int|
            0 <= k < c.len() && event == WatchEventView::Sandbox((#[trigger] c[k]).1)
                && !already_told(p, c[k].0, c[k].1) {
            let k = choose|k: int|
                0 <= k < c.len() && event == WatchEventView::Sandbox((#[trigger] c[k]).1)
                    && !already_told(p, c[k].0, c[k].1);
            let (id, sandbox) = current.entries()[k];
            assert(c[k] == (id, sandbox@));
            lemma_holds_alike(previous, id, sandbox);
            assert(tells(res@[i], current.entries()[k].1));
        } else {
            let k = choose|k: int|
                0 <= k < p.len() && event == WatchEventView::Deleted((#[trigger] p[k]).0) && !knows(
                    c,
                    p[k].0,
                );
            let (id, sandbox) = previous.entries()[k];
            assert(p[k] == (id, sandbox@));
            lemma_holds(current, id);
            assert(tells_gone(res@[i], previous.entries()[k].0));
        }
    }
}

/// A map holds what its snapshot knows.
proof fn lemma_holds(m: StringMap<DriverSandbox>, id: Seq<char>)
    ensures
        holds(m, id) == knows(snapshot(m), id),
{
    let s = snapshot(m);
    if holds(m, id) {
        let j = choose|j: int| 0 <= j < m.entries().len() && (#[trigger] m.entries()[j]).0 == id;
        assert(s[j].0 == id);
    }
    if knows(s, id) {
        let j = choose|j: int| 0 <= j < s.len() && (#[trigger] s[j]).0 == id;
        assert(m.entries()[j].0 == id);
    }
}

/// A map holds alike what its snapshot has told already.
proof fn lemma_holds_alike(m: StringMap<DriverSandbox>, id: Seq<char>, sandbox: DriverSandbox)
    ensures
        holds_alike(m, id, sandbox) == already_told(snapshot(m), id, sandbox@),
{
    let s = snapshot(m);
    if holds_alike(m, id, sandbox) {
        let j = choose|j: int|
            0 <= j < m.entries().len() && (#[trigger] m.entries()[j]).0 == id && alike(
                m.entries()[j].1@,
                sandbox@,
            );
        assert(s[j] == (id, m.entries()[j].1@));
    }
    if already_told(s, id, sandbox@) {
        let j = choose|j: int|
            0 <= j < s.len() && (#[trigger] s[j]).0 == id && alike(s[j].1, sandbox@);
        assert(s[j] == (m.entries()[j].0, m.entries()[j].1@));
    }
}

/// Each sandbox of a snapshot comes from a container of the list.
proof fn lemma_polled_from(entries: Seq<EntryView>, k: int)
    requires
        0 <= k < polled(entries).len(),
    ensures
        exists|i: int|
            0 <= i < entries.len() && sandbox_of(#[trigger] entries[i]) == Some(
                polled(entries)[k].1,
            ),
        polled(entries)[k].0 == polled(entries)[k].1.id,
    decreases entries.len(),
{
    let front = entries.drop_last();
    let n = entries.len() - 1;
    let before = polled(front);
    let all = polled(entries);
    law_polled_is_keyed_by_id(entries, all[k].0);
    if sandbox_of(entries[n]) == Some(all[k].1) {
    } else {
        if let Some(sandbox) = sandbox_of(entries.last()) {
            assert(all == inserted(before, sandbox.id, sandbox));
            assert(k < before.len());
            if has_key(before, sandbox.id) {
                assert(before[position(before, sandbox.id)].0 == sandbox.id);
            }
            assert(all[k] == before[k]);
        }
        lemma_polled_from(front, k);
        let i = choose|i: int|
            0 <= i < front.len() && sandbox_of(#[trigger] front[i]) == Some(before[k].1);
        assert(entries[i] == front[i]);
    }
}

/// A poll keeps each container that is a sandbox under its id, as what it reads
/// as; of containers with the same id the last one counts. It keeps nothing else.
pub proof fn law_polls_keep_every_sandbox(
    entries: Vec<ContainerEntry>,
    res: StringMap<DriverSandbox>,
    i: int,
    k: int,
)
    requires
        call_ensures(poll_managed_sandboxes, (&entries,), res),
    ensures
        0 <= i < entries@.len() && is_sandbox(entries@[i]) && (forall|j: int, id: Seq<char>|
            i < j < entries@.len() && carries(entries@[i], "openshell.ai/sandbox-id"@, id)
                ==> !(is_sandbox(entries@[j]) && #[trigger] carries(
                entries@[j],
                "openshell.ai/sandbox-id"@,
                id,
            ))) ==> exists|m: int|
            0 <= m < res.entries().len() && reads_as(
                entries@[i],
                (#[trigger] res.entries()[m]).1,
            ) && res.entries()[m].0 == res.entries()[m].1.id@,
        0 <= k < res.entries().len() ==> exists|m: int|
            0 <= m < entries@.len() && is_sandbox(#[trigger] entries@[m]) && reads_as(
                entries@[m],
                res.entries()[k].1,
            ) && res.entries()[k].0 == res.entries()[k].1.id@,
{
    let es = entry_views(entries@);
    let s = snapshot(res);
    assert(s == polled(es));
    if 0 <= k < res.entries().len() {
        assert(s[k] == (res.entries()[k].0, res.entries()[k].1@));
        lemma_polled_from(es, k);
        let m = choose|m: int|
            0 <= m < es.len() && sandbox_of(#[trigger] es[m]) == Some(polled(es)[k].1);
        assert(es[m] == entries@[m]@);
        lemma_reads_as(entries@[m], res.entries()[k].1);
        assert(is_sandbox(entries@[m]));
    }
    if 0 <= i < entries@.len() && is_sandbox(entries@[i]) && (forall|j: int, id: Seq<char>|
        i < j < entries@.len() && carries(entries@[i], "openshell.ai/sandbox-id"@, id)
            ==> !(is_sandbox(entries@[j]) && #[trigger] carries(
            entries@[j],
            "openshell.ai/sandbox-id"@,
            id,
        ))) {
        lemma_is_sandbox(entries@[i]);
        assert(es[i] == entries@[i]@);
        let sandbox = sandbox_of(es[i])->0;
        assert forall|j: int| i < j < es.len() implies (sandbox_of(#[trigger] es[j]) matches Some(
            t,
        ) ==> t.id != sandbox.id) by {
            assert(es[j] == entries@[j]@);
            lemma_is_sandbox(entries@[j]);
            if sandbox_of(es[j]) matches Some(t) && t.id == sandbox.id {
                assert(carries(entries@[j], "openshell.ai/sandbox-id"@, sandbox.id));
            }
        }
        law_last_container_counts(es, i, sandbox);
        law_polled_is_keyed_by_id(es, sandbox.id);
        let m = position(s, sandbox.id);
        assert(s[m].0 == sandbox.id);
        lemma_position(s, m);
        assert(s[m] == (res.entries()[m].0, res.entries()[m].1@));
        lemma_reads_as(entries@[i], res.entries()[m].1);
    }
}

/// A watch starts with one event for each sandbox that a poll of the same list
/// keeps, in the same order; with none where there is no list.
pub proof fn law_watches_start_with_what_is_there(
    entries: Vec<ContainerEntry>,
    kept: StringMap<DriverSandbox>,
    res: (WatchState, Vec<WatchSandboxesEvent>),
    i: int,
)
    requires
        call_ensures(poll_managed_sandboxes, (&entries,), kept),
        call_ensures(start_watch, (Ok::<Vec<ContainerEntry>, ContainerCliError>(entries),), res),
    ensures
        res.1@.len() == kept.entries().len(),
        0 <= i < res.1@.len() ==> tells(res.1@[i], kept.entries()[i].1),
        res.0.seen() == snapshot(kept),
        res.0.pause() == 3,
{
    let s = snapshot(kept);
    let all = announcements(s);
    assert(event_views(res.1@) == all);
    assert(event_views(res.1@).len() == res.1@.len());
    if 0 <= i < res.1@.len() {
        assert(event_views(res.1@)[i] == res.1@[i]@);
        assert(s[i] == (kept.entries()[i].0, kept.entries()[i].1@));
        assert(all[i] == WatchEventView::Sandbox(s[i].1));
    }
}

/// A watch that could not list at its start has seen nothing and says nothing.
pub proof fn law_watches_start_empty_without_a_list(
    e: ContainerCliError,
    res: (WatchState, Vec<WatchSandboxesEvent>),
)
    requires
        call_ensures(start_watch, (Err::<Vec<ContainerEntry>, ContainerCliError>(e),), res),
    ensures
        res.1@.len() == 0,
        res.0.seen().len() == 0,
        res.0.pause() == 3,
{
    assert(event_views(res.1@).len() == res.1@.len());
}

/// Each failure to list in a row doubles the pause, up to thirty seconds.
pub proof fn law_pauses_double_up_to_half_a_minute(secs: int)
    ensures
        2 * secs <= 30 ==> next_backoff(secs) == 2 * secs,
        2 * secs >= 30 ==> next_backoff(secs) == 30,
{
}

/// A poll that failed reports nothing and leaves what was seen; the pause doubles,
/// up to thirty seconds.
pub proof fn law_failed_polls_change_only_the_pause()
    ensures
        forall|state: &mut WatchState, e: ContainerCliError, res: Vec<WatchSandboxesEvent>|
            #[trigger]
            call_ensures(
                WatchState::advance,
                (state, Err::<Vec<ContainerEntry>, ContainerCliError>(e)),
                res,
            ) ==> {
                &&& res@.len() == 0
                &&& final(state).seen() == state.seen()
                &&& 2 * state.pause() <= 30 ==> final(state).pause() == 2 * state.pause()
                &&& 2 * state.pause() >= 30 ==> final(state).pause() == 30
            },
{
}

/// A poll that succeeded leaves the watch with what is there, and with the short
/// pause. It tells of each sandbox that was not seen alike before, and of each that
/// was seen before and is gone, and of nothing else.
pub proof fn law_polls_report_what_differs(
    entries: Vec<ContainerEntry>,
    kept: StringMap<DriverSandbox>,
    i: int,
    id: Seq<char>,
)
    requires
        call_ensures(poll_managed_sandboxes, (&entries,), kept),
    ensures
        forall|state: &mut WatchState, res: Vec<WatchSandboxesEvent>|
            #[trigger]
            call_ensures(
                WatchState::advance,
                (state, Ok::<Vec<ContainerEntry>, ContainerCliError>(entries)),
                res,
            ) ==> {
                &&& final(state).seen() == snapshot(kept)
                &&& final(state).pause() == 3
                &&& 0 <= i < kept.entries().len() && !already_told(
                    state.seen(),
                    kept.entries()[i].0,
                    kept.entries()[i].1@,
                ) ==> exists|k: int|
                    0 <= k < res@.len() && tells(#[trigger] res@[k], kept.entries()[i].1)
                &&& knows(state.seen(), id) && !holds(kept, id) ==> exists|k: int|
                    0 <= k < res@.len() && tells_gone(#[trigger] res@[k], id)
                &&& 0 <= i < res@.len() ==> {
                    ||| exists|k: int|
                        0 <= k < kept.entries().len() && tells(
                            res@[i],
                            (#[trigger] kept.entries()[k]).1,
                        ) && !already_told(
                            state.seen(),
                            kept.entries()[k].0,
                            kept.entries()[k].1@,
                        )
                    ||| exists|k: int|
                        0 <= k < state.seen().len() && tells_gone(
                            res@[i],
                            (#[trigger] state.seen()[k]).0,
                        ) && !holds(kept, state.seen()[k].0)
                }
            },
{
    assert forall|state: &mut WatchState, res: Vec<WatchSandboxesEvent>|
        #[trigger]
        call_ensures(
            WatchState::advance,
            (state, Ok::<Vec<ContainerEntry>, ContainerCliError>(entries)),
            res,
        ) implies {
        &&& final(state).seen() == snapshot(kept)
        &&& final(state).pause() == 3
        &&& 0 <= i < kept.entries().len() && !already_told(
            state.seen(),
            kept.entries()[i].0,
            kept.entries()[i].1@,
        ) ==> exists|k: int| 0 <= k < res@.len() && tells(#[trigger] res@[k], kept.entries()[i].1)
        &&& knows(state.seen(), id) && !holds(kept, id) ==> exists|k: int|
            0 <= k < res@.len() && tells_gone(#[trigger] res@[k], id)
        &&& 0 <= i < res@.len() ==> {
            ||| exists|k: int|
                0 <= k < kept.entries().len() && tells(res@[i], (#[trigger] kept.entries()[k]).1)
                    && !already_told(state.seen(), kept.entries()[k].0, kept.entries()[k].1@)
            ||| exists|k: int|
                0 <= k < state.seen().len() && tells_gone(res@[i], (#[trigger] state.seen()[k]).0)
                    && !holds(kept, state.seen()[k].0)
        }
    } by {
        lemma_told(state.seen(), kept, res, i, id);
    }
}

/// The events of a poll tell what differs.
proof fn lemma_told(
    p: Snapshot,
    kept: StringMap<DriverSandbox>,
    res: Vec<WatchSandboxesEvent>,
    i: int,
    id: Seq<char>,
)
    requires
        keyed_by_id(p),
        keyed_by_id(snapshot(kept)),
        event_views(res@) == changes(p, snapshot(kept)),
    ensures
        0 <= i < kept.entries().len() && !already_told(
            p,
            kept.entries()[i].0,
            kept.entries()[i].1@,
        ) ==> exists|k: int| 0 <= k < res@.len() && tells(#[trigger] res@[k], kept.entries()[i].1),
        knows(p, id) && !holds(kept, id) ==> exists|k: int|
            0 <= k < res@.len() && tells_gone(#[trigger] res@[k], id),
        0 <= i < res@.len() ==> {
            ||| exists|k: int|
                0 <= k < kept.entries().len() && tells(res@[i], (#[trigger] kept.entries()[k]).1)
                    && !already_told(p, kept.entries()[k].0, kept.entries()[k].1@)
            ||| exists|k: int|
                0 <= k < p.len() && tells_gone(res@[i], (#[trigger] p[k]).0) && !holds(
                    kept,
                    p[k].0,
                )
        },
{
    let c = snapshot(kept);
    let all = changes(p, c);
    assert(all.len() == res@.len());
    assert forall|k: int| 0 <= k < res@.len() implies all[k] == #[trigger] res@[k]@ by {
        assert(event_views(res@)[k] == res@[k]@);
    }
    if 0 <= i < kept.entries().len() && !already_told(
        p,
        kept.entries()[i].0,
        kept.entries()[i].1@,
    ) {
        let (key, sandbox) = kept.entries()[i];
        assert(c[i] == (key, sandbox@));
        law_changes_are_what_differs(p, c, sandbox@, key);
        let k = choose|k: int| 0 <= k < all.len() && all[k] == WatchEventView::Sandbox(sandbox@);
        assert(tells(res@[k], sandbox));
    }
    if knows(p, id) && !holds(kept, id) {
        lemma_holds(kept, id);
        let j = choose|j: int| 0 <= j < p.len() && (#[trigger] p[j]).0 == id;
        law_changes_are_what_differs(p, c, p[j].1, id);
        let k = choose|k: int| 0 <= k < all.len() && all[k] == WatchEventView::Deleted(id);
        assert(tells_gone(res@[k], id));
    }
    if 0 <= i < res@.len() {
        let event = all[i];
        assert(all.contains(event));
        lemma_changes_contain(p, c, event);
        if exists|k: int|
            0 <= k < c.len() && event == WatchEventView::Sandbox((#[trigger] c[k]).1)
                && !already_told(p, c[k].0, c[k].1) {
            let k = choose|k: int|
                0 <= k < c.len() && event == WatchEventView::Sandbox((#[trigger] c[k]).1)
                    && !already_told(p, c[k].0, c[k].1);
            let (key, sandbox) = kept.entries()[k];
            assert(c[k] == (key, sandbox@));
            assert(tells(res@[i], kept.entries()[k].1));
        } else {
            let k = choose|k: int|
                0 <= k < p.len() && event == WatchEventView::Deleted((#[trigger] p[k]).0) && !knows(
                    c,
                    p[k].0,
                );
            lemma_holds(kept, p[k].0);
            assert(tells_gone(res@[i], p[k].0));
        }
    }
}

/// Through a whole watch, failed polls included, a subscriber that follows every
/// event knows exactly the sandboxes that were seen last, and of each its
/// container and the type, status and reason of every condition.
pub proof fn law_subscriber_knows_every_reason(
    start: Snapshot,
    polls: Seq<Option<Snapshot>>,
    id: Seq<char>,
    i: int,
)
    requires
        keyed_by_id(start),
        forall|k: int|
            0 <= k < polls.len() ==> ((#[trigger] polls[k]) matches Some(s) ==> keyed_by_id(s)),
    ensures
        ({
            let known = follow(Map::empty(), reported_after(start, polls));
            let seen = seen_after(start, polls);
            &&& known.contains_key(id) <==> knows(seen, id)
            &&& 0 <= i < seen.len() ==> known.contains_key(seen[i].0) && alike(
                known[seen[i].0],
                seen[i].1,
            )
        }),
{
    law_subscriber_is_in_step_throughout(start, polls);
    let known = follow(Map::empty(), reported_after(start, polls));
    let seen = seen_after(start, polls);
    assert(known.contains_key(id) == has_key(seen, id));
    if 0 <= i < seen.len() {
        let key = seen[i].0;
        lemma_position(seen, i);
        assert(known.contains_key(key) == has_key(seen, key));
        lemma_alike(known[key], seen[i].1);
    }
}

} // verus!
