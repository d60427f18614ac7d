use vstd::prelude::*;

use crate::classify::{
    asks_register, asks_retire, classify, lemma_repeated_added_pends_once,
    lemma_retire_notification_drops, pending_set, retire_set,
};
use crate::key_set::{AssetKey, KeySet};
use crate::notification::{drain_notifications, Notification, NotificationKind};
use crate::store::ScriptStore;
use crate::unit::ScheduledUnit;

verus! {

/// The keys that have a live unit after one registration phase over `events`:
/// dropped keys leave, keys with a newly built unit join or stay.
pub open spec fn phase_live(live: Set<AssetKey>, events: Seq<Notification>, loaded: Set<AssetKey>) -> Set<AssetKey> {
    live.difference(retire_set(events, loaded)).union(pending_set(events, loaded))
}

/// The keys whose existing unit leaves the schedule in that phase, dropped
/// or replaced by a new one.
pub open spec fn phase_retired(live: Set<AssetKey>, events: Seq<Notification>, loaded: Set<AssetKey>) -> Set<AssetKey> {
    live.intersect(retire_set(events, loaded).union(pending_set(events, loaded)))
}

/// The keys of a sequence of units.
pub open spec fn unit_keys(units: Seq<ScheduledUnit>) -> Seq<AssetKey> {
    units.map_values(|u: ScheduledUnit| u.spec_key())
}

/// What the schedule must do after one registration phase: first take out
/// the units of `retired`, then add `built`.
#[derive(Debug)]
pub struct TickPlan {
    pub retired: Vec<AssetKey>,
    pub built: Vec<ScheduledUnit>,
}

/// Which assets have a live unit in the schedule: at most one per asset.
#[derive(Debug)]
pub struct Registry {
    live: KeySet,
}

impl View for Registry {
    type V = Set<AssetKey>;

    closed spec fn view(&self) -> Set<AssetKey> {
        self.live@
    }
}

impl Registry {
    pub closed spec fn wf(&self) -> bool {
        self.live.wf()
    }

    /// The live units' keys, in the order in which they were registered.
    pub closed spec fn live_keys(&self) -> Seq<AssetKey> {
        self.live.keys()
    }

    pub fn new() -> (r: Registry)
        ensures
            r.wf(),
            r@ == Set::<AssetKey>::empty(),
    {
        Registry { live: KeySet::new() }
    }

    /// Whether `key` has a live unit.
    pub fn contains(&self, key: AssetKey) -> (r: bool)
        ensures
            r == self@.contains(key),
    {
        self.live.contains(key)
    }

    /// The live units, one per key.
    pub fn units(&self) -> (r: Vec<ScheduledUnit>)
        requires
            self.wf(),
        ensures
            unit_keys(r@) == self.live_keys(),
            unit_keys(r@).no_duplicates(),
            unit_keys(r@).to_set() == self@,
    {
        let keys = self.live.to_vec();
        let mut r: Vec<ScheduledUnit> = Vec::new();
        let mut i: usize = 0;
        while i < keys.len()
            invariant
                i <= keys@.len(),
                r@.len() == i,
                forall|j: int| 0 <= j < i ==> (#[trigger] r@[j]).spec_key() == keys@[j],
            decreases keys@.len() - i,
        {
            r.push(ScheduledUnit::build(keys[i]));
            i = i + 1;
        }
        assert(unit_keys(r@) =~= keys@);
        proof {
            KeySet::lemma_view_is_keys(&self.live);
        }
        r
    }

    /// One registration phase: drains `queue`, drops the unit of each key
    /// whose last deciding notification was `Removed` or `Unused`, and builds
    /// one unit for each key whose last deciding notification was an `Added`
    /// with loaded bytes, replacing the key's old unit if it had one.
    pub fn registration_phase(&mut self, queue: &mut Vec<Notification>, store: &ScriptStore) -> (r: TickPlan)
        requires
            old(self).wf(),
        ensures
            final(self).wf(),
            final(queue)@.len() == 0,
            final(self)@ == phase_live(old(self)@, old(queue)@, store@.dom()),
            unit_keys(r.built@).no_duplicates(),
            unit_keys(r.built@).to_set() == pending_set(old(queue)@, store@.dom()),
            r.retired@.no_duplicates(),
            r.retired@.to_set() == phase_retired(old(self)@, old(queue)@, store@.dom()),
    {
        let ghost live0 = self@;
        let events = drain_notifications(queue);
        let ghost loaded = store@.dom();
        let decisions = classify(&events, store);
        let drops = decisions.unregister.to_vec();
        let adds = decisions.register.to_vec();
        let ghost dset = retire_set(events@, loaded);
        let ghost aset = pending_set(events@, loaded);
        assert(drops@.to_set() == dset);
        assert(adds@.to_set() == aset);
        let mut retired: Vec<AssetKey> = Vec::new();
        let mut i: usize = 0;
        assert(drops@.take(0).to_set() =~= Set::<AssetKey>::empty());
        assert(live0.difference(Set::<AssetKey>::empty()) =~= live0);
        assert(retired@.to_set() =~= live0.intersect(Set::<AssetKey>::empty()));
        while i < drops.len()
            invariant
                i <= drops@.len(),
                self.wf(),
                drops@.no_duplicates(),
                self@ == live0.difference(drops@.take(i as int).to_set()),
                retired@.no_duplicates(),
                retired@.to_set() == live0.intersect(drops@.take(i as int).to_set()),
            decreases drops@.len() - i,
        {
            let k = drops[i];
            let ghost before = retired@;
            assert(drops@.take(i as int + 1) =~= drops@.take(i as int).push(k));
            proof {
                drops@.take(i as int).lemma_push_to_set_commute(k);
            }
            assert(!drops@.take(i as int).contains(k)) by {
                if drops@.take(i as int).contains(k) {
                    let t = choose|t: int| 0 <= t < i && drops@.take(i as int)[t] == k;
                    assert(drops@[t] == drops@[i as int]);
                }
            }
            assert(!before.contains(k)) by {
                if before.contains(k) {
                    assert(before.to_set().contains(k));
                }
            }
            if self.live.remove(k) {
                retired.push(k);
                assert(retired@ == before.push(k));
                proof {
                    before.lemma_push_to_set_commute(k);
                }
            }
            assert(self@ =~= live0.difference(drops@.take(i as int + 1).to_set()));
            assert(retired@.to_set() =~= live0.intersect(drops@.take(i as int + 1).to_set()));
            i = i + 1;
        }
        assert(drops@.take(drops@.len() as int) =~= drops@);
        let ghost mid = self@;
        let mut built: Vec<ScheduledUnit> = Vec::new();
        let mut j: usize = 0;
        assert(adds@.take(0).to_set() =~= Set::<AssetKey>::empty());
        assert(mid.union(Set::<AssetKey>::empty()) =~= mid);
        assert(dset.union(Set::<AssetKey>::empty()) =~= dset);
        while j < adds.len()
            invariant
                j <= adds@.len(),
                self.wf(),
                adds@.no_duplicates(),
                adds@.to_set() == aset,
                drops@.to_set() == dset,
                mid == live0.difference(dset),
                aset == pending_set(events@, loaded),
                dset == retire_set(events@, loaded),
                self@ == mid.union(adds@.take(j as int).to_set()),
                retired@.no_duplicates(),
                retired@.to_set() == live0.intersect(dset.union(adds@.take(j as int).to_set())),
                built@.len() == j,
                forall|t: int| 0 <= t < j ==> (#[trigger] built@[t]).spec_key() == adds@[t],
            decreases adds@.len() - j,
        {
            let k = adds[j];
            let ghost before = retired@;
            assert(adds@.take(j as int + 1) =~= adds@.take(j as int).push(k));
            proof {
                adds@.take(j as int).lemma_push_to_set_commute(k);
            }
            assert(aset.contains(k));
            assert(!dset.contains(k));
            assert(!adds@.take(j as int).contains(k)) by {
                if adds@.take(j as int).contains(k) {
                    let t = choose|t: int| 0 <= t < j && adds@.take(j as int)[t] == k;
                    assert(adds@[t] == adds@[j as int]);
                }
            }
            assert(!before.contains(k)) by {
                if before.contains(k) {
                    assert(before.to_set().contains(k));
                }
            }
            if self.live.contains(k) {
                retired.push(k);
                assert(retired@ == before.push(k));
                proof {
                    before.lemma_push_to_set_commute(k);
                }
            } else {
                self.live.insert(k);
            }
            built.push(ScheduledUnit::build(k));
            assert(self@ =~= mid.union(adds@.take(j as int + 1).to_set()));
            assert(retired@.to_set() =~= live0.intersect(dset.union(adds@.take(j as int + 1).to_set())));
            j = j + 1;
        }
        assert(adds@.take(adds@.len() as int) =~= adds@);
        assert(unit_keys(built@) =~= adds@);
        assert(self@ =~= phase_live(live0, events@, loaded));
        TickPlan { retired, built }
    }
}

/// Whatever notifications a registry has processed, it holds at most one
/// live unit per asset.
pub proof fn lemma_at_most_one_unit_per_key(reg: &Registry, i: int, j: int)
    requires
        reg.wf(),
        0 <= i < reg.live_keys().len(),
        0 <= j < reg.live_keys().len(),
        reg.live_keys()[i] == reg.live_keys()[j],
    ensures
        i == j,
{
    KeySet::lemma_wf_no_duplicates(&reg.live);
}

/// A `Removed` or `Unused` notification for `k` leaves `k` without a live
/// unit after the phase, unless a later `Added` for `k`, with its bytes
/// loaded, brings it back in the same phase.
pub proof fn lemma_retired_key_has_no_unit(live: Set<AssetKey>, events: Seq<Notification>, loaded: Set<AssetKey>, k: AssetKey, i: int)
    requires
        0 <= i < events.len(),
        asks_retire(events[i], k),
        forall|j: int| i < j < events.len() ==> !asks_register(#[trigger] events[j], loaded, k),
    ensures
        !phase_live(live, events, loaded).contains(k),
{
    lemma_retire_notification_drops(events, loaded, k, i);
}

/// However many `Added` notifications for one loaded key arrive in a phase,
/// exactly one unit is built, for that key.
pub proof fn lemma_repeated_added_builds_one_unit(built: Seq<AssetKey>, events: Seq<Notification>, loaded: Set<AssetKey>, k: AssetKey)
    requires
        events.len() > 0,
        loaded.contains(k),
        forall|i: int| 0 <= i < events.len() ==> #[trigger] events[i] == (Notification { kind: NotificationKind::Added, key: k }),
        built.no_duplicates(),
        built.to_set() == pending_set(events, loaded),
    ensures
        built == seq![k],
{
    lemma_repeated_added_pends_once(events, loaded, k);
    assert(built.to_set().contains(k));
    assert(built.len() >= 1);
    assert(built.to_set().contains(built[0]));
    if built.len() >= 2 {
        assert(built.to_set().contains(built[1]));
        assert(built[0] == built[1]);
    }
    assert(built =~= seq![k]);
}

} // verus!
