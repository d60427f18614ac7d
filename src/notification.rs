use vstd::prelude::*;

use crate::key_set::AssetKey;

verus! {

/// The lifecycle events that the asset store reports for a script asset.
#[derive(Clone, Copy, Debug, PartialEq, Eq, Structural)]
pub enum NotificationKind {
    Added,
    Modified,
    Removed,
    Unused,
    LoadedWithDependencies,
}

/// One lifecycle event, tagged with the asset it concerns.
#[derive(Clone, Copy, Debug, PartialEq, Eq, Structural)]
pub struct Notification {
    pub kind: NotificationKind,
    pub key: AssetKey,
}

impl Notification {
    pub fn new(kind: NotificationKind, key: AssetKey) -> (r: Notification)
        ensures
            r.kind == kind,
            r.key == key,
    {
        Notification { kind, key }
    }
}

/// Takes every pending notification out of `queue`, in arrival order,
/// leaving it empty: what is drained in one tick is not seen again.
pub fn drain_notifications(queue: &mut Vec<Notification>) -> (r: Vec<Notification>)
    ensures
        r@ == old(queue)@,
        final(queue)@.len() == 0,
{
    let mut taken: Vec<Notification> = Vec::new();
    std::mem::swap(queue, &mut taken);
    taken
}

} // verus!
