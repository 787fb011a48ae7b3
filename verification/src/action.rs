use vstd::prelude::*;
use crate::lvm::Volume;

verus! {

/// A deferred intent: inert data that widgets produce and widgets consume.
#[derive(Clone, Debug, PartialEq, Eq)]
pub enum Action {
    OpenSizeMenu,
    IncDriveSize,
    DecDriveSize,
    OpenFormatMenu,
    CloseFormatMenu,
    FormatDrive,
    CreateDrive(Volume),
}

impl Action {
    /// How much follow-up work consuming this action may still cause: an
    /// action weighs more than everything a widget may enqueue when it
    /// consumes it.
    pub open spec fn weight(self) -> nat {
        match self {
            Action::FormatDrive => 3,
            _ => 1,
        }
    }

    /// An independent copy of this action.
    pub fn duplicate(&self) -> (copy: Action)
        ensures
            copy == *self,
    {
        match self {
            Action::OpenSizeMenu => Action::OpenSizeMenu,
            Action::IncDriveSize => Action::IncDriveSize,
            Action::DecDriveSize => Action::DecDriveSize,
            Action::OpenFormatMenu => Action::OpenFormatMenu,
            Action::CloseFormatMenu => Action::CloseFormatMenu,
            Action::FormatDrive => Action::FormatDrive,
            Action::CreateDrive(volume) => Action::CreateDrive(volume.duplicate()),
        }
    }
}

/// Total weight of a queue of actions.
pub open spec fn queue_weight(queue: Seq<Action>) -> nat
    decreases queue.len(),
{
    if queue.len() == 0 {
        0
    } else {
        queue_weight(queue.drop_last()) + queue.last().weight()
    }
}

/// The weight of two queues joined is the sum of their weights.
pub proof fn lemma_queue_weight_add(a: Seq<Action>, b: Seq<Action>)
    ensures
        queue_weight(a + b) == queue_weight(a) + queue_weight(b),
    decreases b.len(),
{
    if b.len() == 0 {
        assert(a + b =~= a);
    } else {
        assert((a + b).drop_last() =~= a + b.drop_last());
        assert((a + b).last() == b.last());
        lemma_queue_weight_add(a, b.drop_last());
    }
}

} // verus!
