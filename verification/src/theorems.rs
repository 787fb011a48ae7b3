use vstd::prelude::*;
use crate::action::{lemma_queue_weight_add, queue_weight, Action};
use crate::backend::Reply;
use crate::bitmap::Bitmap;
use crate::controller::Event;
use crate::displaymanager::{
    dispatch_law, on_event_spec, on_path, sweep, Pass, Position, Routed, WidgetModel, Window, WindowId,
    WindowTree,
};
use crate::error::Error;
use crate::font::FontView;
use crate::newdrive::{DriveFormat, DriveFormatState, DriveSize, DriveSizeState, NewDrive, NewDriveState};
use crate::provision::Provision;
use crate::piso::PIsoView;
use crate::render::rendered;

verus! {

/// One call on a display manager that creates a window or moves the focus.
pub enum TreeCall {
    AddChild(Position),
    ShiftFocus(WindowId),
    Enter(WindowId),
}

/// The tree after `call`: a call that fails leaves the tree as it was.
pub open spec fn after_call(tree: WindowTree, call: TreeCall) -> WindowTree {
    match call {
        TreeCall::AddChild(position) => if tree.has_room() {
            tree.add_child(position)
        } else {
            tree
        },
        TreeCall::ShiftFocus(id) => if tree.valid(id) {
            tree.shift_focus(id)
        } else {
            tree
        },
        TreeCall::Enter(id) => if tree.valid(id) {
            tree.enter(id)
        } else {
            tree
        },
    }
}

/// The tree after `calls`, made in their order.
pub open spec fn after_calls(tree: WindowTree, calls: Seq<TreeCall>) -> WindowTree
    decreases calls.len(),
{
    if calls.len() == 0 {
        tree
    } else {
        after_call(after_calls(tree, calls.drop_last()), calls.last())
    }
}

/// How many of `windows` have the focus flag set.
pub open spec fn focus_count(windows: Seq<Window>) -> nat
    decreases windows.len(),
{
    if windows.len() == 0 {
        0
    } else {
        focus_count(windows.drop_last()) + if windows.last().focus { 1nat } else { 0nat }
    }
}

/// Among the first `n` windows of a well-formed tree, the focus flag is set
/// on the focused window if it is among them, and on no other.
proof fn lemma_focus_count_prefix(tree: WindowTree, n: int)
    requires
        tree.wf(),
        0 <= n <= tree.windows.len(),
    ensures
        focus_count(tree.windows.take(n)) == if tree.focused.index < n { 1nat } else { 0nat },
    decreases n,
{
    if n > 0 {
        lemma_focus_count_prefix(tree, n - 1);
        assert(tree.windows.take(n).drop_last() =~= tree.windows.take(n - 1));
        assert(tree.windows.take(n).last() == tree.windows[n - 1]);
    }
}

/// Focus invariant. Start from any well-formed window tree, such as a fresh
/// one, and make any calls that create windows, move the focus, or change
/// the context, whether they succeed or fail: afterwards the tree is well
/// formed, and exactly one window has the focus, the one the tree names.
pub proof fn theorem_single_focus(tree: WindowTree, calls: Seq<TreeCall>)
    requires
        tree.wf(),
    ensures
        after_calls(tree, calls).wf(),
        focus_count(after_calls(tree, calls).windows) == 1,
        after_calls(tree, calls).windows[after_calls(tree, calls).focused.index as int].focus,
    decreases calls.len(),
{
    if calls.len() > 0 {
        theorem_single_focus(tree, calls.drop_last());
    }
    let last = after_calls(tree, calls);
    assert(last.wf());
    lemma_focus_count_prefix(last, last.windows.len() as int);
    assert(last.windows.take(last.windows.len() as int) =~= last.windows);
}

/// Windows stay. Whatever calls are made, no window goes away, so that no
/// identity is ever handed out twice, and every window keeps the position
/// and the parent that it was created with.
pub proof fn theorem_windows_persist(tree: WindowTree, calls: Seq<TreeCall>)
    requires
        tree.wf(),
    ensures
        after_calls(tree, calls).windows.len() >= tree.windows.len(),
        after_calls(tree, calls).limit == tree.limit,
        forall|i: int|
            0 <= i < tree.windows.len() ==> {
                &&& (#[trigger] after_calls(tree, calls).windows[i]).position == tree.windows[i].position
                &&& after_calls(tree, calls).windows[i].parent == tree.windows[i].parent
            },
    decreases calls.len(),
{
    if calls.len() > 0 {
        theorem_windows_persist(tree, calls.drop_last());
        theorem_single_focus(tree, calls.drop_last());
    }
}

/// The chain to a window starts at the root, ends at the window, and each
/// of its links hangs under the one before it.
proof fn lemma_path_to(tree: WindowTree, index: int)
    requires
        tree.wf(),
        0 <= index < tree.windows.len(),
        index <= usize::MAX,
    ensures
        tree.path_to(index).len() >= 1,
        tree.path_to(index)[0] == WindowTree::root(),
        tree.path_to(index).last() == (WindowId { index: index as usize }),
        forall|k: int|
            0 <= k < tree.path_to(index).len() ==> tree.valid(#[trigger] tree.path_to(index)[k]),
        forall|k: int|
            0 < k < tree.path_to(index).len() ==> tree.windows[(#[trigger] tree.path_to(
                index,
            )[k]).index as int].parent == tree.path_to(index)[k - 1],
    decreases index,
{
    if index > 0 {
        let parent = tree.windows[index].parent.index as int;
        lemma_path_to(tree, parent);
        let up = tree.path_to(parent);
        let me = WindowId { index: index as usize };
        assert(tree.path_to(index) == up.push(me));
        assert forall|k: int| 0 < k < tree.path_to(index).len() implies tree.windows[(#[trigger] tree.path_to(
            index,
        )[k]).index as int].parent == tree.path_to(index)[k - 1] by {
            if k < up.len() {
                assert(tree.path_to(index)[k] == up[k]);
            } else {
                assert(tree.path_to(index)[k - 1] == up.last());
            }
        }
    }
}

/// The focus path is the chain of windows from the root to the focused
/// window: it starts at the root, ends at the window that has the focus,
/// and each window on it is the parent of the next.
pub proof fn theorem_focus_path(tree: WindowTree)
    requires
        tree.wf(),
    ensures
        tree.focus_path().len() >= 1,
        tree.focus_path()[0] == WindowTree::root(),
        tree.focus_path().last() == tree.focused,
        tree.windows[tree.focus_path().last().index as int].focus,
        forall|k: int| 0 <= k < tree.focus_path().len() ==> tree.valid(#[trigger] tree.focus_path()[k]),
        forall|k: int|
            0 < k < tree.focus_path().len() ==> tree.windows[(#[trigger] tree.focus_path()[k]).index as int].parent
                == tree.focus_path()[k - 1],
{
    lemma_path_to(tree, tree.focused.index as int);
}

/// A fresh tree is well formed: its root has the focus.
pub proof fn theorem_fresh_tree(limit: nat)
    requires
        1 <= limit <= usize::MAX,
    ensures
        WindowTree::fresh(limit).wf(),
{
}

/// Dispatch is a function of the tree, the focus and the event. Whatever
/// two deliveries of one event to one tree with one focus path return and
/// leave behind is the same.
pub proof fn theorem_dispatch_deterministic<M: WidgetModel>(
    tree: WindowTree,
    root: M,
    event: Event,
    first: (M, Result<Seq<Action>, Error>),
    second: (M, Result<Seq<Action>, Error>),
)
    requires
        first == on_event_spec(tree, root, event),
        second == on_event_spec(tree, root, event),
    ensures
        first == second,
{
}

/// Dispatch follows the focus path. Of the widgets under `root`, walked
/// with what is nested first, take those whose window lies on the focus
/// path. The event goes to the first of them first, then along them in
/// order, and no further than the first that takes it. If none takes it,
/// every one of them was asked and no action is returned.
pub proof fn theorem_dispatch_order<M: WidgetModel>(tree: WindowTree, root: M, event: Event)
    ensures
        ({
            let routed = root.dispatch_spec(tree.focus_path(), event);
            let chain = on_path(root.windows(), tree.focus_path());
            &&& dispatch_law(root.windows(), tree.focus_path(), routed.handled, routed.actions, routed.offered)
            &&& chain.len() > 0 ==> routed.offered.len() > 0 && routed.offered[0] == chain[0]
            &&& chain.len() == 0 ==> routed.offered.len() == 0 && !routed.handled
            &&& !routed.handled ==> routed.actions.len() == 0 && routed.offered == chain
        }),
{
    root.lemma_dispatch(tree.focus_path(), event);
}

/// Where the widget that takes an event always asks for an action, no
/// action comes back exactly when no widget on the focus path took the event.
pub proof fn theorem_dispatch_empty<M: WidgetModel>(tree: WindowTree, root: M, event: Event)
    requires
        root.dispatch_spec(tree.focus_path(), event).handled ==> root.dispatch_spec(
            tree.focus_path(),
            event,
        ).actions.len() > 0,
    ensures
        root.dispatch_spec(tree.focus_path(), event).actions.len() == 0 <==> !root.dispatch_spec(
            tree.focus_path(),
            event,
        ).handled,
{
    root.lemma_dispatch(tree.focus_path(), event);
}

/// What a pass over the first `n` actions leaves in the queue, together
/// with one unit for each action consumed, weighs no more than the actions
/// it went through. A pass that consumed nothing asked for nothing and kept
/// every action it went through.
pub proof fn lemma_sweep_weight<M: WidgetModel>(root: M, tree: WindowTree, queue: Seq<Action>, n: nat)
    requires
        n <= queue.len(),
    ensures
        sweep(root, tree, queue, n).done <= n,
        queue_weight(sweep(root, tree, queue, n).retained) + queue_weight(sweep(root, tree, queue, n).emitted)
            + sweep(root, tree, queue, n).consumed <= queue_weight(
            queue.take(sweep(root, tree, queue, n).done as int),
        ),
        sweep(root, tree, queue, n).consumed == 0 ==> sweep(root, tree, queue, n).emitted.len() == 0 && sweep(
            root,
            tree,
            queue,
            n,
        ).retained == queue.take(sweep(root, tree, queue, n).done as int),
        sweep(root, tree, queue, n).failure is None ==> sweep(root, tree, queue, n).done == n,
    decreases n,
{
    if n == 0 {
        assert(queue.take(0) =~= Seq::<Action>::empty());
    } else {
        lemma_sweep_weight(root, tree, queue, (n - 1) as nat);
        let before = sweep(root, tree, queue, (n - 1) as nat);
        if before.failure is None {
            let action = queue[n - 1];
            let effect = before.after.distribute_spec(before.tree, action);
            before.after.lemma_distribute_settles(before.tree, action);
            assert(queue.take(n as int).drop_last() =~= queue.take(n - 1));
            assert(queue.take(n as int).last() == action);
            match effect.outcome {
                Ok((handled, more)) => {
                    if handled {
                        lemma_queue_weight_add(before.emitted, more);
                    } else {
                        assert(before.retained.push(action).drop_last() =~= before.retained);
                    }
                },
                Err(_) => {},
            }
        }
    }
}

/// Every action weighs something, so only an empty queue weighs nothing.
pub proof fn lemma_weightless_is_empty(queue: Seq<Action>)
    ensures
        queue_weight(queue) == 0 <==> queue.len() == 0,
    decreases queue.len(),
{
    if queue.len() > 0 {
        lemma_weightless_is_empty(queue.drop_last());
    }
}

/// One pass never makes the queue heavier, and makes it lighter by at
/// least one unit for each action that it consumed. A pass that consumed
/// nothing leaves the queue as it was.
pub proof fn theorem_pass_settles<M: WidgetModel>(root: M, tree: WindowTree, queue: Seq<Action>)
    ensures
        queue_weight(sweep(root, tree, queue, queue.len()).queue(queue)) + sweep(
            root,
            tree,
            queue,
            queue.len(),
        ).consumed <= queue_weight(queue),
        sweep(root, tree, queue, queue.len()).consumed == 0 ==> sweep(root, tree, queue, queue.len()).queue(
            queue,
        ) == queue,
{
    let pass = sweep(root, tree, queue, queue.len());
    lemma_sweep_weight(root, tree, queue, queue.len());
    let gone = queue.take(pass.done as int);
    let rest = queue.skip(pass.done as int);
    assert(queue =~= gone + rest);
    lemma_queue_weight_add(gone, rest);
    lemma_queue_weight_add(pass.retained, rest);
    lemma_queue_weight_add(pass.retained + rest, pass.emitted);
    if pass.consumed == 0 {
        assert(pass.queue(queue) =~= queue);
    }
}

/// The root widget, the window tree and the queue between two passes.
pub struct Round<M> {
    pub root: M,
    pub tree: WindowTree,
    pub queue: Seq<Action>,
}

/// The pass that follows `round`.
pub open spec fn next_pass<M: WidgetModel>(round: Round<M>) -> Pass<M> {
    sweep(round.root, round.tree, round.queue, round.queue.len())
}

/// The state after `k` passes, each over the queue that the pass before it left.
pub open spec fn after_passes<M: WidgetModel>(start: Round<M>, k: nat) -> Round<M>
    decreases k,
{
    if k == 0 {
        start
    } else {
        let before = after_passes(start, (k - 1) as nat);
        let pass = next_pass(before);
        Round { root: pass.after, tree: pass.tree, queue: pass.queue(before.queue) }
    }
}

/// Whether each of the first `k` passes that finds something in the queue
/// consumes at least one action.
pub open spec fn makes_progress<M: WidgetModel>(start: Round<M>, k: nat) -> bool {
    forall|j: nat|
        j < k && after_passes(start, j).queue.len() > 0 ==> #[trigger] next_pass(
            after_passes(start, j),
        ).consumed > 0
}

/// After `k` passes that made progress, the queue is empty or lighter by `k`.
proof fn lemma_passes_weight<M: WidgetModel>(start: Round<M>, k: nat)
    requires
        makes_progress(start, k),
    ensures
        after_passes(start, k).queue.len() == 0 || queue_weight(after_passes(start, k).queue) + k
            <= queue_weight(start.queue),
    decreases k,
{
    if k > 0 {
        let j = (k - 1) as nat;
        assert(makes_progress(start, j));
        lemma_passes_weight(start, j);
        let before = after_passes(start, j);
        theorem_pass_settles(before.root, before.tree, before.queue);
        if before.queue.len() == 0 {
            assert(next_pass(before).queue(before.queue) =~= Seq::<Action>::empty());
        } else {
            assert(next_pass(after_passes(start, j)).consumed > 0);
        }
    }
}

/// Fixpoint termination. Passes over the action queue are repeated until
/// it is empty. As long as each pass that finds something in the queue
/// consumes at least one action, the queue is empty after as many passes
/// as the queue weighed at the start, whatever the widgets are: no action
/// can keep the queue busy for ever, because what follows from a consumed
/// action weighs less than the action.
pub proof fn theorem_fixpoint_bounded<M: WidgetModel>(start: Round<M>, k: nat)
    requires
        makes_progress(start, k),
        k >= queue_weight(start.queue),
    ensures
        after_passes(start, k).queue.len() == 0,
{
    lemma_passes_weight(start, k);
    lemma_weightless_is_empty(after_passes(start, k).queue);
}

/// Compositing idempotence. Drawing reads the tree and changes nothing, and
/// the picture is a function of the widgets, the window tree and the font:
/// two drawings of one state are the same bitmap, pixel for pixel, or fail
/// with the same error.
pub proof fn theorem_render_idempotent<M: WidgetModel>(
    root: M,
    tree: WindowTree,
    font: FontView,
    first: Result<Bitmap, Error>,
    second: Result<Bitmap, Error>,
)
    requires
        rendered(first, root.composite_spec(tree, font)),
        rendered(second, root.composite_spec(tree, font)),
    ensures
        match (first, second) {
            (Ok(a), Ok(b)) => a@ == b@,
            (Err(e), Err(f)) => e == f,
            _ => false,
        },
{
}

/// The widget after `replies` were handed to it one by one.
pub open spec fn resumed<M: WidgetModel>(widget: M, replies: Seq<Reply>) -> M
    decreases replies.len(),
{
    if replies.len() == 0 {
        widget
    } else {
        resumed(widget, replies.drop_last()).resume_spec(replies.last())
    }
}

/// The format picker of the wizard, while it is open.
pub open spec fn picker(piso: PIsoView) -> Option<DriveFormat> {
    match piso.newdrive.state {
        NewDriveState::PickingSize(size) => match size.state {
            DriveSizeState::Selected(format) => Some(format),
            DriveSizeState::Unselected => None,
        },
        NewDriveState::Unselected => None,
    }
}

/// The making of a drive that the wizard is at, if it is at one.
pub open spec fn making(piso: PIsoView) -> Option<Provision> {
    match picker(piso) {
        Some(format) => match format.state {
            DriveFormatState::Formatting(work) => Some(work),
            _ => None,
        },
        None => None,
    }
}

/// `piso` with the making of the drive that the wizard is at replaced by `work`.
pub open spec fn with_making(piso: PIsoView, work: Provision) -> PIsoView {
    match piso.newdrive.state {
        NewDriveState::PickingSize(size) => match size.state {
            DriveSizeState::Selected(format) => PIsoView {
                newdrive: NewDrive {
                    state: NewDriveState::PickingSize(
                        DriveSize {
                            state: DriveSizeState::Selected(
                                DriveFormat { state: DriveFormatState::Formatting(work), ..format },
                            ),
                            ..size
                        },
                    ),
                    ..piso.newdrive
                },
                ..piso
            },
            DriveSizeState::Unselected => piso,
        },
        NewDriveState::Unselected => piso,
    }
}

/// Replies reach nothing but the making of a drive: where the wizard is at
/// none, they change nothing, and where it is at one, they change only that.
proof fn lemma_resumed(piso: PIsoView, replies: Seq<Reply>)
    ensures
        making(piso) is None ==> resumed(piso, replies) == piso,
        making(piso) is Some ==> making(resumed(piso, replies)) is Some && resumed(piso, replies) == with_making(
            piso,
            making(resumed(piso, replies))->Some_0,
        ),
    decreases replies.len(),
{
    if replies.len() > 0 {
        lemma_resumed(piso, replies.drop_last());
    }
}

/// What becomes of the press of a button in the wizard.
#[verifier::opaque]
pub open spec fn pressed(piso: PIsoView, tree: WindowTree, event: Event) -> Routed<PIsoView> {
    piso.dispatch_spec(tree.focus_path(), event)
}

/// One pass over all of `queue` in the wizard.
#[verifier::opaque]
pub open spec fn pass_over(piso: PIsoView, tree: WindowTree, queue: Seq<Action>) -> Pass<PIsoView> {
    sweep(piso, tree, queue, queue.len())
}

/// The wizard after the replies to its outside work.
#[verifier::opaque]
pub open spec fn rested(piso: PIsoView, replies: Seq<Reply>) -> PIsoView {
    resumed(piso, replies)
}

/// One cycle of the main loop in the wizard: an event, then three passes
/// over the queue, with replies to outside work after the first and the
/// second.
pub struct Cycle {
    /// The queue after the third pass.
    pub queue: Seq<Action>,
    /// Whether one of the passes failed.
    pub failed: bool,
    /// Whether no outside work was left undone after the first pass.
    pub work_done: bool,
}

pub open spec fn cycle(tree: WindowTree, piso: PIsoView, event: Event, first: Seq<Reply>, second: Seq<Reply>) -> Cycle {
    let routed = pressed(piso, tree, event);
    let pass1 = pass_over(routed.after, tree, routed.actions);
    let queue1 = pass1.queue(routed.actions);
    let rested1 = rested(pass1.after, first);
    let pass2 = pass_over(rested1, pass1.tree, queue1);
    let queue2 = pass2.queue(queue1);
    let rested2 = rested(pass2.after, second);
    let pass3 = pass_over(rested2, pass2.tree, queue2);
    Cycle {
        queue: pass3.queue(queue2),
        failed: pass1.failure is Some || pass2.failure is Some || pass3.failure is Some,
        work_done: rested1.work_spec() is None,
    }
}

/// Whether the widget that consumes `action` is there in `piso`, whatever
/// the state of the wizard.
pub open spec fn has_taker(piso: PIsoView, action: Action) -> bool {
    match action {
        Action::OpenSizeMenu => true,
        Action::OpenFormatMenu | Action::IncDriveSize | Action::DecDriveSize => piso.newdrive.state
            is PickingSize,
        _ => false,
    }
}

/// Whether `queue` is what the format picker asks for when the drive is made.
pub open spec fn is_closing(queue: Seq<Action>) -> bool {
    queue.len() == 2 && queue[0] == Action::CloseFormatMenu && queue[1] is CreateDrive
}

/// What the wizard asks for when a button is pressed: nothing, or one
/// action that the widget that asked for it is there to consume.
proof fn lemma_pressed(piso: PIsoView, tree: WindowTree, event: Event)
    ensures
        ({
            let routed = pressed(piso, tree, event);
            ||| routed.actions.len() == 0
            ||| routed.actions.len() == 1 && has_taker(routed.after, routed.actions[0])
            ||| routed.actions == seq![Action::FormatDrive] && picker(routed.after) is Some
        }),
{
    reveal(pressed);
}

/// A pass over no action does nothing.
proof fn lemma_pass_over_nothing(piso: PIsoView, tree: WindowTree, queue: Seq<Action>)
    requires
        queue.len() == 0,
    ensures
        pass_over(piso, tree, queue).failure is None,
        pass_over(piso, tree, queue).queue(queue).len() == 0,
{
    reveal(pass_over);
}

/// A pass over one action whose taker is there consumes it, or fails.
proof fn lemma_pass_over_taken(piso: PIsoView, tree: WindowTree, queue: Seq<Action>)
    requires
        queue.len() == 1,
        has_taker(piso, queue[0]),
    ensures
        pass_over(piso, tree, queue).failure is Some || pass_over(piso, tree, queue).queue(queue).len() == 0,
{
    reveal(pass_over);
    reveal_with_fuel(sweep, 2);
    let effect = piso.distribute_spec(tree, queue[0]);
    match effect.outcome {
        Ok((handled, more)) => {
            assert(handled);
            assert(more =~= Seq::<Action>::empty());
            assert(pass_over(piso, tree, queue).queue(queue) =~= Seq::<Action>::empty());
        },
        Err(_) => {},
    }
}

/// A pass over `FormatDrive` while the format picker is open fails, or
/// makes the picker close the wizard, or leaves the action in the queue
/// with the making of the drive under way. It does not leave the action
/// where the making has ended.
proof fn lemma_pass_over_format(piso: PIsoView, tree: WindowTree, queue: Seq<Action>)
    requires
        queue == seq![Action::FormatDrive],
        picker(piso) is Some,
    ensures
        ({
            let pass = pass_over(piso, tree, queue);
            ||| pass.failure is Some
            ||| pass.queue(queue).len() == 0
            ||| is_closing(pass.queue(queue)) && picker(pass.after) is Some
            ||| {
                &&& pass.queue(queue) == queue
                &&& making(pass.after) is Some
                &&& !(making(piso) is Some && making(piso)->Some_0.outcome_spec() is Some)
            }
        }),
{
    reveal(pass_over);
    reveal_with_fuel(sweep, 2);
    let pass = pass_over(piso, tree, queue);
    let effect = piso.distribute_spec(tree, Action::FormatDrive);
    assert(queue[0] == Action::FormatDrive);
    match effect.outcome {
        Ok((handled, more)) => {
            if handled {
                assert(pass.queue(queue) =~= more);
            } else {
                assert(pass.queue(queue) =~= queue);
            }
        },
        Err(_) => {},
    }
}

/// The pass that closes the wizard: the menu is closed and the drive is
/// taken over, or the pass fails.
proof fn lemma_pass_over_closing(piso: PIsoView, tree: WindowTree, queue: Seq<Action>)
    requires
        is_closing(queue),
        picker(piso) is Some,
    ensures
        pass_over(piso, tree, queue).failure is Some || pass_over(piso, tree, queue).queue(queue).len() == 0,
{
    reveal(pass_over);
    reveal_with_fuel(sweep, 3);
    let mid = sweep(piso, tree, queue, 1);
    let closing = piso.distribute_spec(tree, Action::CloseFormatMenu);
    if closing.outcome is Ok {
        assert(closing.outcome->Ok_0.0);
        assert(closing.outcome->Ok_0.1 =~= Seq::<Action>::empty());
        let pass = sweep(piso, tree, queue, 2);
        let taking = mid.after.distribute_spec(mid.tree, queue[1]);
        if taking.outcome is Ok {
            assert(taking.outcome->Ok_0.0);
            assert(taking.outcome->Ok_0.1 =~= Seq::<Action>::empty());
            assert(pass.queue(queue) =~= Seq::<Action>::empty());
        }
    }
}

/// Replies leave the wizard where it stands; where it is at the making of
/// a drive and waits for nothing afterwards, the making has ended.
proof fn lemma_rested(piso: PIsoView, replies: Seq<Reply>)
    ensures
        picker(piso) is Some ==> picker(rested(piso, replies)) is Some,
        making(piso) is Some ==> making(rested(piso, replies)) is Some,
        making(piso) is Some && rested(piso, replies).work_spec() is None ==> making(
            rested(piso, replies),
        )->Some_0.outcome_spec() is Some,
{
    reveal(rested);
    lemma_resumed(piso, replies);
    if making(piso) is Some {
        let after = resumed(piso, replies);
        let work = making(after)->Some_0;
        let format = picker(after)->Some_0;
        work.lemma_ended(format.size);
    }
}

/// Fixpoint termination in the wizard. Whatever state the wizard is in,
/// wherever the focus is and whichever button is pressed: if the outside
/// work that the widgets ask for is brought to an end after the first
/// pass, then either a pass fails or the queue is empty after three passes.
pub proof fn theorem_wizard_drains(
    tree: WindowTree,
    piso: PIsoView,
    event: Event,
    first: Seq<Reply>,
    second: Seq<Reply>,
)
    requires
        cycle(tree, piso, event, first, second).work_done,
    ensures
        cycle(tree, piso, event, first, second).failed || cycle(tree, piso, event, first, second).queue.len()
            == 0,
{
    let routed = pressed(piso, tree, event);
    let queue0 = routed.actions;
    let pass1 = pass_over(routed.after, tree, queue0);
    let queue1 = pass1.queue(queue0);
    let rested1 = rested(pass1.after, first);
    let pass2 = pass_over(rested1, pass1.tree, queue1);
    let queue2 = pass2.queue(queue1);
    let rested2 = rested(pass2.after, second);
    let pass3 = pass_over(rested2, pass2.tree, queue2);
    lemma_pressed(piso, tree, event);
    lemma_rested(pass1.after, first);
    lemma_rested(pass2.after, second);
    if queue0.len() == 0 {
        lemma_pass_over_nothing(routed.after, tree, queue0);
    } else if queue0.len() == 1 && has_taker(routed.after, queue0[0]) {
        lemma_pass_over_taken(routed.after, tree, queue0);
    } else {
        lemma_pass_over_format(routed.after, tree, queue0);
    }
    if pass1.failure is None {
        if queue1.len() == 0 {
            lemma_pass_over_nothing(rested1, pass1.tree, queue1);
        } else if is_closing(queue1) {
            lemma_pass_over_closing(rested1, pass1.tree, queue1);
        } else {
            lemma_pass_over_format(rested1, pass1.tree, queue1);
        }
        if pass2.failure is None {
            if queue2.len() == 0 {
                lemma_pass_over_nothing(rested2, pass2.tree, queue2);
            } else {
                lemma_pass_over_closing(rested2, pass2.tree, queue2);
            }
        }
    }
}

/// How many replies the wizard needs at most before no outside work is left.
pub open spec fn work_left(piso: PIsoView) -> nat {
    match making(piso) {
        Some(work) => work.steps_left(),
        None => 0,
    }
}

/// Outside work is bounded. The wizard never needs more than nine
/// replies, and it asks for work exactly while it needs one.
pub proof fn theorem_work_bounded(piso: PIsoView)
    ensures
        work_left(piso) <= 9,
        piso.work_spec() is None <==> work_left(piso) == 0,
{
    match making(piso) {
        Some(work) => {
            work.lemma_steps_left(picker(piso)->Some_0.size);
        },
        None => {},
    }
}

/// Every reply, whatever it says, lowers the number of replies that the
/// wizard still needs; where it needs none, a reply changes nothing.
pub proof fn theorem_reply_lowers_work(piso: PIsoView, reply: Reply)
    ensures
        work_left(piso) > 0 ==> work_left(piso.resume_spec(reply)) < work_left(piso),
        work_left(piso) == 0 ==> piso.resume_spec(reply) == piso,
{
    match making(piso) {
        Some(work) => {
            work.lemma_reply_lowers(reply, picker(piso)->Some_0.selected);
        },
        None => {},
    }
}

/// After `replies`, the wizard needs as many replies fewer, or none.
proof fn lemma_work_left(piso: PIsoView, replies: Seq<Reply>)
    ensures
        work_left(resumed(piso, replies)) == 0 || work_left(resumed(piso, replies)) + replies.len() <= work_left(
            piso,
        ),
    decreases replies.len(),
{
    if replies.len() > 0 {
        lemma_work_left(piso, replies.drop_last());
        theorem_reply_lowers_work(resumed(piso, replies.drop_last()), replies.last());
    }
}

/// Outside work ends. Whatever the replies say, once the wizard was handed
/// as many as it needed at the start, and so after nine in any case, it
/// asks for no more work.
pub proof fn theorem_work_ends(piso: PIsoView, replies: Seq<Reply>)
    requires
        replies.len() >= work_left(piso) || replies.len() >= 9,
    ensures
        resumed(piso, replies).work_spec() is None,
{
    lemma_work_left(piso, replies);
    theorem_work_bounded(piso);
    theorem_work_bounded(resumed(piso, replies));
}

/// Fixpoint termination in the wizard, with the outside work counted in.
/// Whatever state the wizard is in, wherever the focus is and whichever
/// button is pressed: if nine replies to outside work, whatever they say,
/// are handed over after the first pass, then either a pass fails or the
/// queue is empty after three passes.
pub proof fn theorem_wizard_cycle(
    tree: WindowTree,
    piso: PIsoView,
    event: Event,
    first: Seq<Reply>,
    second: Seq<Reply>,
)
    requires
        first.len() >= 9,
    ensures
        cycle(tree, piso, event, first, second).work_done,
        cycle(tree, piso, event, first, second).failed || cycle(tree, piso, event, first, second).queue.len()
            == 0,
{
    let routed = pressed(piso, tree, event);
    let pass1 = pass_over(routed.after, tree, routed.actions);
    theorem_work_ends(pass1.after, first);
    assert(rested(pass1.after, first) == resumed(pass1.after, first)) by {
        reveal(rested);
    }
    theorem_wizard_drains(tree, piso, event, first, second);
}

} // verus!
