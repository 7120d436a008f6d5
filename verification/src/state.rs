//! The one launch that may run at a time.
use vstd::prelude::*;

use crate::text::str_eq;

verus! {

/// Which launch holds the launcher, if any. The application keeps one
/// behind a lock and shares it between commands.
pub struct LaunchTracker {
    active_launch_id: Option<String>,
}

impl LaunchTracker {
    /// The id of the launch that holds the tracker.
    pub closed spec fn active(&self) -> Option<Seq<char>> {
        match self.active_launch_id {
            Some(id) => Some(id@),
            None => None,
        }
    }

    /// A tracker that no launch holds.
    pub fn new() -> (t: Self)
        ensures
            t.active() is None,
    {
        LaunchTracker { active_launch_id: None }
    }

    /// Takes the tracker for `launch_id` when no launch holds it; `false`
    /// when one does, and then nothing changes.
    pub fn try_acquire(&mut self, launch_id: String) -> (acquired: bool)
        ensures
            (final(self).active(), acquired) == acquire_outcome(old(self).active(), launch_id@),
    {
        if self.active_launch_id.is_some() {
            return false;
        }
        self.active_launch_id = Some(launch_id);
        true
    }

    /// Frees the tracker when `launch_id` holds it; otherwise nothing changes.
    pub fn clear_if_matches(&mut self, launch_id: &str)
        ensures
            final(self).active() == clear_outcome(old(self).active(), launch_id@),
    {
        let matches = match &self.active_launch_id {
            Some(id) => str_eq(id.as_str(), launch_id),
            None => false,
        };
        if matches {
            self.active_launch_id = None;
        }
    }
}

/// The holder after an acquire by `id`, and whether it succeeded.
pub open spec fn acquire_outcome(active: Option<Seq<char>>, id: Seq<char>) -> (Option<Seq<char>>, bool) {
    if active is None {
        (Some(id), true)
    } else {
        (active, false)
    }
}

/// The holder after a clear by `id`.
pub open spec fn clear_outcome(active: Option<Seq<char>>, id: Seq<char>) -> Option<Seq<char>> {
    if active == Some(id) {
        None
    } else {
        active
    }
}

/// Only one launch runs at a time: after any acquire a second one fails;
/// the launch that acquired the tracker frees it by clearing, and a clear by
/// another id leaves it held.
pub proof fn lemma_tracker_exclusive(active: Option<Seq<char>>, first: Seq<char>, second: Seq<char>)
    requires
        first != second,
    ensures
        !acquire_outcome(acquire_outcome(active, first).0, second).1,
        active is None ==> clear_outcome(acquire_outcome(active, first).0, first) is None,
        active is None ==> clear_outcome(acquire_outcome(active, first).0, second) == Some(first),
        active is None ==> acquire_outcome(clear_outcome(acquire_outcome(active, first).0, first), second).1,
{
}

} // verus!
