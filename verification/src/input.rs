use vstd::prelude::*;
use crate::action::{queue_weight, Action};
use crate::controller::Event;
use crate::displaymanager::{DisplayManager, WindowTree};
use crate::error::Error;

verus! {

/// What became of an event: the widget afterwards, whether it took the
/// event, and the actions it asks for.
pub struct Reaction<W> {
    pub after: W,
    pub handled: bool,
    pub actions: Seq<Action>,
}

/// What became of an action: the widget and the window tree afterwards, and
/// either whether the action was consumed and which actions follow from it,
/// or the failure.
pub struct Effect<W> {
    pub after: W,
    pub tree: WindowTree,
    pub outcome: Result<(bool, Seq<Action>), Error>,
}

/// The content of what `do_action` returns.
pub open spec fn outcome_view(result: Result<(bool, Vec<Action>), Error>) -> Result<(bool, Seq<Action>), Error> {
    match result {
        Ok((handled, actions)) => Ok((handled, actions@)),
        Err(e) => Err(e),
    }
}

/// The rule that keeps the action queue from growing forever: what follows
/// from a consumed action weighs less than the action, and nothing follows
/// from an action that was not consumed.
pub open spec fn settles(action: Action, outcome: Result<(bool, Seq<Action>), Error>) -> bool {
    outcome matches Ok((handled, actions)) ==> if handled {
        queue_weight(actions) < action.weight()
    } else {
        actions.len() == 0
    }
}

/// What a widget that interprets events and actions is, mathematically.
pub trait InputModel: Sized {
    /// How the widget itself reacts to `event`.
    spec fn event_spec(self, event: Event) -> Reaction<Self>;

    /// How the widget itself carries out `action` on the window tree `tree`.
    spec fn action_spec(self, tree: WindowTree, action: Action) -> Effect<Self>;

    /// Every widget obeys the rule of `settles`.
    proof fn lemma_action_settles(self, tree: WindowTree, action: Action)
        ensures
            settles(action, self.action_spec(tree, action).outcome),
    ;
}

/// The capability to interpret events and actions.
pub trait Input: View + Sized where Self::V: InputModel {
    /// Offers `event` to the widget itself. The widget may change its own
    /// state; anything that reaches further is returned as actions.
    fn on_event(&mut self, event: &Event) -> (result: (bool, Vec<Action>))
        ensures
            (*old(self))@.event_spec(*event) == (Reaction {
                after: (*final(self))@,
                handled: result.0,
                actions: result.1@,
            }),
    ;

    /// Offers `action` to the widget itself.
    fn do_action(&mut self, disp: &mut DisplayManager, action: &Action) -> (result: Result<
        (bool, Vec<Action>),
        Error,
    >)
        requires
            old(disp).wf(),
        ensures
            final(disp).wf(),
            (*old(self))@.action_spec(old(disp)@, *action) == (Effect {
                after: (*final(self))@,
                tree: final(disp)@,
                outcome: outcome_view(result),
            }),
    ;
}

} // verus!
