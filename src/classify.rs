use vstd::prelude::*;

use crate::key_set::{AssetKey, KeySet};
use crate::notification::{Notification, NotificationKind};
use crate::store::ScriptStore;

verus! {

/// Whether `n` asks for `k` to have a unit: an `Added` for `k` whose bytes are loaded.
pub open spec fn asks_register(n: Notification, loaded: Set<AssetKey>, k: AssetKey) -> bool {
    n.key == k && n.kind == NotificationKind::Added && loaded.contains(k)
}

/// Whether `n` asks for `k` to lose its unit: a `Removed` or `Unused` for `k`.
pub open spec fn asks_retire(n: Notification, k: AssetKey) -> bool {
    n.key == k && (n.kind == NotificationKind::Removed || n.kind == NotificationKind::Unused)
}

/// What the last deciding notification for `k` in `events` asks for:
/// `Some(true)` to (re)build its unit, `Some(false)` to drop it, `None` if no
/// notification decides anything for `k`. `Modified` and
/// `LoadedWithDependencies` decide nothing, nor does an `Added` whose bytes
/// cannot be resolved.
pub open spec fn last_decision(events: Seq<Notification>, loaded: Set<AssetKey>, k: AssetKey) -> Option<bool>
    decreases events.len(),
{
    if events.len() == 0 {
        None
    } else if asks_register(events.last(), loaded, k) {
        Some(true)
    } else if asks_retire(events.last(), k) {
        Some(false)
    } else {
        last_decision(events.drop_last(), loaded, k)
    }
}

/// The keys that need a newly built unit after `events`.
pub open spec fn pending_set(events: Seq<Notification>, loaded: Set<AssetKey>) -> Set<AssetKey> {
    Set::new(|k: AssetKey| last_decision(events, loaded, k) == Some(true))
}

/// The keys whose unit must be dropped after `events`.
pub open spec fn retire_set(events: Seq<Notification>, loaded: Set<AssetKey>) -> Set<AssetKey> {
    Set::new(|k: AssetKey| last_decision(events, loaded, k) == Some(false))
}

/// The outcome of classifying one tick's notifications.
#[derive(Debug)]
pub struct TickDecisions {
    /// Keys that need a newly built unit, each once.
    pub register: KeySet,
    /// Keys whose unit must be dropped, each once.
    pub unregister: KeySet,
}

/// Classifies one tick's notifications, in arrival order, against the bytes
/// currently loaded in `store`.
pub fn classify(events: &Vec<Notification>, store: &ScriptStore) -> (r: TickDecisions)
    ensures
        r.register.wf(),
        r.unregister.wf(),
        r.register@ == pending_set(events@, store@.dom()),
        r.unregister@ == retire_set(events@, store@.dom()),
{
    let ghost loaded = store@.dom();
    let mut register = KeySet::new();
    let mut unregister = KeySet::new();
    let mut i: usize = 0;
    assert(pending_set(events@.take(0), loaded) =~= Set::<AssetKey>::empty());
    assert(retire_set(events@.take(0), loaded) =~= Set::<AssetKey>::empty());
    while i < events.len()
        invariant
            i <= events@.len(),
            loaded == store@.dom(),
            register.wf(),
            unregister.wf(),
            register@ == pending_set(events@.take(i as int), loaded),
            unregister@ == retire_set(events@.take(i as int), loaded),
        decreases events@.len() - i,
    {
        let n = events[i];
        let ghost prev = events@.take(i as int);
        let ghost next = events@.take(i as int + 1);
        assert(next.drop_last() =~= prev);
        assert(next.last() == n);
        if n.kind == NotificationKind::Added && store.contains(n.key) {
            register.insert(n.key);
            unregister.remove(n.key);
        } else if n.kind == NotificationKind::Removed || n.kind == NotificationKind::Unused {
            unregister.insert(n.key);
            register.remove(n.key);
        }
        assert(register@ =~= pending_set(next, loaded));
        assert(unregister@ =~= retire_set(next, loaded));
        i = i + 1;
    }
    assert(events@.take(events@.len() as int) =~= events@);
    TickDecisions { register, unregister }
}

proof fn lemma_other_keys_undecided(events: Seq<Notification>, loaded: Set<AssetKey>, k: AssetKey, j: AssetKey)
    requires
        j != k,
        forall|i: int| 0 <= i < events.len() ==> (#[trigger] events[i]).key == k,
    ensures
        last_decision(events, loaded, j) == None::<bool>,
    decreases events.len(),
{
    if events.len() > 0 {
        assert(events.last().key == k);
        lemma_other_keys_undecided(events.drop_last(), loaded, k, j);
    }
}

/// However many `Added` notifications for one loaded key arrive in a tick,
/// that key is the only one pending, and it is pending once.
pub proof fn lemma_repeated_added_pends_once(events: Seq<Notification>, loaded: Set<AssetKey>, k: AssetKey)
    requires
        events.len() > 0,
        loaded.contains(k),
        forall|i: int| 0 <= i < events.len() ==> #[trigger] events[i] == (Notification { kind: NotificationKind::Added, key: k }),
    ensures
        pending_set(events, loaded) == set![k],
        forall|j: AssetKey| !(#[trigger] retire_set(events, loaded).contains(j)),
{
    assert(asks_register(events.last(), loaded, k));
    assert forall|j: AssetKey| j != k implies last_decision(events, loaded, j) == None::<bool> by {
        lemma_other_keys_undecided(events, loaded, k, j);
    }
    assert(pending_set(events, loaded) =~= set![k]);
}

/// A `Removed` or `Unused` notification for `k` leaves `k` to be dropped,
/// unless a later `Added` for `k`, with its bytes loaded, brings it back.
pub proof fn lemma_retire_notification_drops(events: Seq<Notification>, loaded: Set<AssetKey>, k: AssetKey, i: int)
    requires
        0 <= i < events.len(),
        asks_retire(events[i], k),
        forall|j: int| i < j < events.len() ==> !asks_register(#[trigger] events[j], loaded, k),
    ensures
        last_decision(events, loaded, k) == Some(false),
        retire_set(events, loaded).contains(k),
        !pending_set(events, loaded).contains(k),
    decreases events.len(),
{
    let last = events.len() - 1;
    assert(events.last() == events[last]);
    if i < last {
        assert(!asks_register(events[last], loaded, k));
        if !asks_retire(events[last], k) {
            let rest = events.drop_last();
            assert forall|j: int| i < j < rest.len() implies !asks_register(#[trigger] rest[j], loaded, k) by {
                assert(rest[j] == events[j]);
            }
            assert(rest[i] == events[i]);
            lemma_retire_notification_drops(rest, loaded, k, i);
        }
    } else {
        assert(!asks_register(events[i], loaded, k));
    }
}

} // verus!
