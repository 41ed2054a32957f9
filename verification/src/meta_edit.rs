//! What follows an edit of a parameter's metadata on one node: whether the
//! edit needs the user's confirmation, which changed aspects are announced
//! and under whose name, and what the audio side must be told.

use vstd::prelude::*;
use crate::device::MetaAspect;

verus! {

/// How one aspect of the edited parameter came out of the edit.
#[derive(Debug, Clone, Copy, PartialEq, Eq, Structural)]
pub struct AspectChange {
    pub aspect: MetaAspect,
    /// The aspect's value differs from before the edit.
    pub changed: bool,
    /// The aspect's new value is the value the requester sent.
    pub equals_request: bool,
}

/// Under whose name a changed aspect is announced on the bus.
#[derive(Debug, Clone, Copy, PartialEq, Eq, Structural)]
pub enum AnnounceAs {
    /// The requester: the aspect it asked for took the value it sent (its
    /// own session does not echo it).
    Requester,
    /// The master: a knock-on change (clamping, a cascaded default).
    Master,
}

/// What to do after an accepted edit.
#[derive(Debug, Clone, PartialEq, Eq)]
pub struct MetaEditPlan {
    /// One entry per aspect change, in order: `None` when the aspect did not
    /// change, else under whose name it is announced.
    pub announce: Vec<Option<AnnounceAs>>,
    /// Re-apply the parameter's current value, so it is clamped into the
    /// new range (after a `min` / `max` edit of a parameter with a value).
    pub reapply_current: bool,
    /// Push the new default to the audio side (the default changed and the
    /// parameter has no value of its own).
    pub push_default: bool,
    /// A bound that cannot grow at run time grew: reload the engine.
    pub schedule_reload: bool,
}

/// Why an edit is refused.
#[derive(Debug, Clone, Copy, PartialEq, Eq, Structural)]
pub enum MetaEditError {
    /// The edit widens a bound past what the running engine allocated; the
    /// requester must confirm it (it triggers a reload).
    ConfirmRequired,
}

/// How a changed aspect is announced.
pub open spec fn announce_spec(target: MetaAspect, c: AspectChange) -> Option<AnnounceAs> {
    if !c.changed {
        None
    } else if c.aspect == target && c.equals_request {
        Some(AnnounceAs::Requester)
    } else {
        Some(AnnounceAs::Master)
    }
}

/// The last `default` entry among the changes reports a change.
pub open spec fn default_changed(changes: Seq<AspectChange>) -> bool {
    exists|i: int|
        0 <= i < changes.len() && changes[i].aspect == MetaAspect::Default && changes[i].changed
            && forall|j: int| i < j < changes.len() ==> changes[j].aspect != MetaAspect::Default
}

/// `last` is the last `default` entry among the first `n` changes (-1: none).
pub open spec fn is_last_default(changes: Seq<AspectChange>, n: int, last: int) -> bool {
    &&& -1 <= last < n
    &&& last >= 0 ==> changes[last].aspect == MetaAspect::Default
    &&& forall|j: int| last < j < n ==> #[trigger] changes[j].aspect != MetaAspect::Default
}

proof fn lemma_last_default(changes: Seq<AspectChange>, last: int)
    requires
        is_last_default(changes, changes.len() as int, last),
    ensures
        default_changed(changes) == (last >= 0 && changes[last].changed),
{
    if default_changed(changes) {
        let m = choose|m: int|
            0 <= m < changes.len() && changes[m].aspect == MetaAspect::Default && changes[m].changed
                && forall|j: int| m < j < changes.len() ==> changes[j].aspect != MetaAspect::Default;
        if m < last {
            assert(changes[last].aspect != MetaAspect::Default);
        }
        if last < m {
            assert(changes[m].aspect != MetaAspect::Default);
        }
    } else if last >= 0 && changes[last].changed {
        assert(forall|j: int| last < j < changes.len() ==> changes[j].aspect != MetaAspect::Default);
    }
}

/// Decide what follows an edit of aspect `target` of a parameter.
/// `grew`: a bound that cannot grow at run time grew; `confirmed`: the
/// requester confirmed; `changes`: each aspect of the parameter, old against
/// new; `has_current`: the parameter has a value of its own in the preset.
pub fn plan_meta_edit(
    target: MetaAspect,
    grew: bool,
    confirmed: bool,
    changes: &Vec<AspectChange>,
    has_current: bool,
) -> (r: Result<MetaEditPlan, MetaEditError>)
    ensures
        grew && !confirmed ==> r == Err::<MetaEditPlan, MetaEditError>(MetaEditError::ConfirmRequired),
        !(grew && !confirmed) ==> r is Ok,
        r matches Ok(p) ==> {
            &&& p.announce@.len() == changes@.len()
            &&& forall|i: int|
                0 <= i < changes@.len() ==> #[trigger] p.announce@[i] == announce_spec(
                    target,
                    changes@[i],
                )
            &&& p.reapply_current == ((target == MetaAspect::Min || target == MetaAspect::Max)
                && has_current)
            &&& p.push_default == (default_changed(changes@) && !has_current)
            &&& p.schedule_reload == grew
        },
{
    if grew && !confirmed {
        return Err(MetaEditError::ConfirmRequired);
    }
    let mut announce: Vec<Option<AnnounceAs>> = Vec::new();
    let mut dc = false;
    let ghost mut last: int = -1;
    let mut i: usize = 0;
    while i < changes.len()
        invariant
            i <= changes@.len(),
            announce@.len() == i,
            forall|k: int| 0 <= k < i ==> #[trigger] announce@[k] == announce_spec(target, changes@[k]),
            is_last_default(changes@, i as int, last),
            dc == (last >= 0 && changes@[last].changed),
        decreases changes.len() - i,
    {
        let c = changes[i];
        let a = if !c.changed {
            None
        } else if c.aspect == target && c.equals_request {
            Some(AnnounceAs::Requester)
        } else {
            Some(AnnounceAs::Master)
        };
        announce.push(a);
        if c.aspect == MetaAspect::Default {
            dc = c.changed;
            proof {
                last = i as int;
            }
        }
        i = i + 1;
    }
    proof {
        lemma_last_default(changes@, last);
    }
    let bound_aspect = target == MetaAspect::Min || target == MetaAspect::Max;
    Ok(
        MetaEditPlan {
            announce,
            reapply_current: bound_aspect && has_current,
            push_default: dc && !has_current,
            schedule_reload: grew,
        },
    )
}

} // verus!
