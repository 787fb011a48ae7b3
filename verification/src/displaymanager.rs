use vstd::prelude::*;
use crate::action::{queue_weight, Action};
use crate::backend::{request_view, Reply, Request, RequestView};
use crate::bitmap::{Bitmap, Grid};
use crate::controller::Event;
use crate::error::Error;
use crate::font::{Font, FontView};
use crate::input::{outcome_view, settles, Effect, Input, InputModel};
use crate::render::{rendered, Render, RenderModel};

verus! {

/// Handle of one window of a display manager.
#[derive(Clone, Copy, Debug, PartialEq, Eq, Structural)]
pub struct WindowId {
    pub index: usize,
}

/// Where a window is placed inside its parent.
#[derive(Clone, Copy, Debug, PartialEq, Eq, Structural)]
pub enum Position {
    /// Stacked below what the parent already shows.
    Normal,
    /// At the given column and row of the parent.
    Fixed(usize, usize),
}

/// One node of the window tree.
#[derive(Clone, Copy, Debug, PartialEq, Eq, Structural)]
pub struct Window {
    pub position: Position,
    pub focus: bool,
    pub parent: WindowId,
}

/// The mathematical content of a display manager.
pub struct WindowTree {
    /// Every window ever created; a window's identity is its place here.
    pub windows: Seq<Window>,
    /// The window that holds the focus.
    pub focused: WindowId,
    /// The window under which `add_child` creates the next window.
    pub context: WindowId,
    /// How many windows may exist.
    pub limit: nat,
}

impl WindowTree {
    pub open spec fn valid(self, id: WindowId) -> bool {
        id.index < self.windows.len()
    }

    pub open spec fn root() -> WindowId {
        WindowId { index: 0 }
    }

    /// The structural invariant: the root exists, the windows are no more
    /// than the limit, which is no more than the machine can count, every
    /// window but the root hangs under an older one, and the focus flag is
    /// set on the focused window and on no other.
    pub open spec fn wf(self) -> bool {
        &&& 1 <= self.windows.len() <= self.limit <= usize::MAX
        &&& self.valid(self.focused)
        &&& self.valid(self.context)
        &&& self.windows[0].parent == WindowTree::root()
        &&& forall|i: int| 0 < i < self.windows.len() ==> (#[trigger] self.windows[i]).parent.index < i
        &&& forall|i: int| 0 <= i < self.windows.len() ==>
                ((#[trigger] self.windows[i]).focus <==> i == self.focused.index)
    }

    /// A tree that holds only its root, which has the focus.
    pub open spec fn fresh(limit: nat) -> WindowTree {
        WindowTree {
            windows: seq![Window { position: Position::Normal, focus: true, parent: WindowTree::root() }],
            focused: WindowTree::root(),
            context: WindowTree::root(),
            limit,
        }
    }

    /// Whether another window can be created.
    pub open spec fn has_room(self) -> bool {
        self.windows.len() < self.limit
    }

    /// The identity that the next new window gets.
    pub open spec fn next_id(self) -> WindowId {
        WindowId { index: self.windows.len() as usize }
    }

    /// The tree with one more window, unfocused, under the current context.
    pub open spec fn add_child(self, position: Position) -> WindowTree {
        WindowTree {
            windows: self.windows.push(Window { position, focus: false, parent: self.context }),
            ..self
        }
    }

    /// The tree with the focus moved to `id`.
    pub open spec fn shift_focus(self, id: WindowId) -> WindowTree {
        let cleared = self.windows.update(
            self.focused.index as int,
            Window { focus: false, ..self.windows[self.focused.index as int] },
        );
        WindowTree {
            windows: cleared.update(id.index as int, Window { focus: true, ..cleared[id.index as int] }),
            focused: id,
            ..self
        }
    }

    /// The tree with `id` as the window under which new windows are created.
    pub open spec fn enter(self, id: WindowId) -> WindowTree {
        WindowTree { context: id, ..self }
    }

    /// The tree with `count` more windows, unfocused and stacked, under the
    /// current context.
    pub open spec fn grow(self, count: nat) -> WindowTree
        decreases count,
    {
        if count == 0 {
            self
        } else {
            self.grow((count - 1) as nat).add_child(Position::Normal)
        }
    }

    /// How many more windows can be created.
    pub open spec fn room(self) -> nat {
        (self.limit - self.windows.len()) as nat
    }

    /// The chain of windows from the root down to window `index`.
    pub open spec fn path_to(self, index: int) -> Seq<WindowId>
        decreases index,
    {
        if 0 < index < self.windows.len() && self.windows[index].parent.index < index {
            self.path_to(self.windows[index].parent.index as int).push(WindowId { index: index as usize })
        } else {
            seq![WindowId { index: index as usize }]
        }
    }

    /// The focus path: the chain of windows from the root to the focused one.
    pub open spec fn focus_path(self) -> Seq<WindowId> {
        self.path_to(self.focused.index as int)
    }

    /// Whether `id` lies on the focus path.
    pub open spec fn on_focus_path(self, id: WindowId) -> bool {
        self.focus_path().contains(id)
    }

    /// A window lies on the chain to `index` if it is `index` itself or lies
    /// on the chain to the parent of `index`.
    pub proof fn lemma_path_step(self, index: int, id: WindowId)
        requires
            0 < index < self.windows.len(),
            index <= usize::MAX,
            self.windows[index].parent.index < index,
        ensures
            self.path_to(index).contains(id) <==> (id.index == index || self.path_to(
                self.windows[index].parent.index as int,
            ).contains(id)),
    {
        let up = self.path_to(self.windows[index].parent.index as int);
        let me = WindowId { index: index as usize };
        assert(self.path_to(index) == up.push(me));
        if up.push(me).contains(id) {
            let k = choose|k: int| 0 <= k < up.push(me).len() && up.push(me)[k] == id;
            if k < up.len() {
                assert(up[k] == id);
            }
        }
        if up.contains(id) {
            let k = choose|k: int| 0 <= k < up.len() && up[k] == id;
            assert(up.push(me)[k] == id);
        }
        if id.index == index {
            assert(up.push(me)[up.len() as int] == id);
        }
    }
}

/// Owner of every window: hands out identities, tracks the focus, and knows
/// under which window the next one is created.
#[derive(Clone, Debug, PartialEq, Eq)]
pub struct DisplayManager {
    windows: Vec<Window>,
    focused: usize,
    context: usize,
    limit: usize,
}

impl View for DisplayManager {
    type V = WindowTree;

    closed spec fn view(&self) -> WindowTree {
        WindowTree {
            windows: self.windows@,
            focused: WindowId { index: self.focused },
            context: WindowId { index: self.context },
            limit: self.limit as nat,
        }
    }
}

impl DisplayManager {
    /// The manager's invariant, which every operation keeps.
    pub open spec fn wf(&self) -> bool {
        self@.wf()
    }

    /// A manager that holds only the root window, which has the focus, and
    /// that can hold as many windows as the machine can count.
    pub fn new() -> (manager: DisplayManager)
        ensures
            manager.wf(),
            manager@ == WindowTree::fresh(usize::MAX as nat),
    {
        DisplayManager::with_limit(usize::MAX)
    }

    /// A manager that holds only the root window and never more than `limit`
    /// windows (never fewer than the root itself).
    pub fn with_limit(limit: usize) -> (manager: DisplayManager)
        ensures
            manager.wf(),
            manager@ == WindowTree::fresh(if limit == 0 { 1nat } else { limit as nat }),
    {
        let mut windows: Vec<Window> = Vec::new();
        windows.push(Window { position: Position::Normal, focus: true, parent: WindowId { index: 0 } });
        let manager = DisplayManager { windows, focused: 0, context: 0, limit: if limit == 0 { 1 } else { limit } };
        assert(manager@.windows =~= WindowTree::fresh(manager.limit as nat).windows);
        manager
    }

    /// The root window.
    pub fn root(&self) -> (id: WindowId)
        ensures
            id == WindowTree::root(),
    {
        WindowId { index: 0 }
    }

    /// The window that holds the focus.
    pub fn focused(&self) -> (id: WindowId)
        ensures
            id == self@.focused,
    {
        WindowId { index: self.focused }
    }

    /// How many windows exist.
    pub fn len(&self) -> (n: usize)
        ensures
            n == self@.windows.len(),
    {
        self.windows.len()
    }

    /// The state of window `id`, if there is such a window.
    pub fn get(&self, id: WindowId) -> (window: Option<Window>)
        ensures
            window == if self@.valid(id) { Some(self@.windows[id.index as int]) } else { None },
    {
        if id.index < self.windows.len() {
            Some(self.windows[id.index])
        } else {
            None
        }
    }

    /// Makes `id` the window under which `add_child` creates windows.
    /// Fails, and changes nothing, if there is no such window.
    pub fn enter(&mut self, id: WindowId) -> (result: Result<(), Error>)
        requires
            old(self).wf(),
        ensures
            final(self).wf(),
            old(self)@.valid(id) ==> result == Ok::<(), Error>(()) && final(self)@ == old(self)@.enter(id),
            !old(self)@.valid(id) ==> result == Err::<(), Error>(Error::InvalidWindow) && final(self)@ == old(self)@,
    {
        if id.index < self.windows.len() {
            self.context = id.index;
            Ok(())
        } else {
            Err(Error::InvalidWindow)
        }
    }

    /// Creates a window under the current context, unfocused, and returns its
    /// identity. Fails, and changes nothing, if no identity is left.
    pub fn add_child(&mut self, position: Position) -> (result: Result<WindowId, Error>)
        requires
            old(self).wf(),
        ensures
            final(self).wf(),
            old(self)@.has_room() ==> result == Ok::<WindowId, Error>(old(self)@.next_id()) && final(self)@
                == old(self)@.add_child(position),
            !old(self)@.has_room() ==> result == Err::<WindowId, Error>(Error::WindowsExhausted) && final(self)@
                == old(self)@,
    {
        if self.windows.len() >= self.limit {
            return Err(Error::WindowsExhausted);
        }
        let id = WindowId { index: self.windows.len() };
        self.windows.push(Window { position, focus: false, parent: WindowId { index: self.context } });
        Ok(id)
    }

    /// Moves the focus from its holder to window `id`. Shifting to the holder
    /// itself changes nothing. Fails, and changes nothing, if there is no
    /// such window.
    pub fn shift_focus(&mut self, id: WindowId) -> (result: Result<(), Error>)
        requires
            old(self).wf(),
        ensures
            final(self).wf(),
            old(self)@.valid(id) ==> result == Ok::<(), Error>(()) && final(self)@ == old(self)@.shift_focus(
                id,
            ),
            !old(self)@.valid(id) ==> result == Err::<(), Error>(Error::InvalidWindow) && final(self)@ == old(self)@,
    {
        if id.index >= self.windows.len() {
            return Err(Error::InvalidWindow);
        }
        let holder = self.windows[self.focused];
        self.windows.set(self.focused, Window { focus: false, ..holder });
        let target = self.windows[id.index];
        self.windows.set(id.index, Window { focus: true, ..target });
        self.focused = id.index;
        Ok(())
    }

    /// Whether window `id` lies on the chain from the root to the focused window.
    pub fn is_on_focus_path(&self, id: WindowId) -> (on_path: bool)
        requires
            self.wf(),
        ensures
            on_path == self@.on_focus_path(id),
    {
        let mut current: usize = self.focused;
        loop
            invariant
                self.wf(),
                current < self.windows@.len(),
                self@.on_focus_path(id) <==> self@.path_to(current as int).contains(id),
            decreases current,
        {
            if current == id.index {
                proof {
                    let me = WindowId { index: current };
                    let path = self@.path_to(current as int);
                    assert(path[path.len() - 1] == me);
                }
                return true;
            }
            if current == 0 {
                proof {
                    let path = self@.path_to(0);
                    assert(path =~= seq![WindowId { index: 0 }]);
                    if path.contains(id) {
                        let k = choose|k: int| 0 <= k < path.len() && path[k] == id;
                    }
                }
                return false;
            }
            proof {
                self@.lemma_path_step(current as int, id);
            }
            current = self.windows[current].parent.index;
        }
    }
}

/// What became of an event that was offered to a widget and everything
/// nested in it.
pub struct Routed<W> {
    /// The widget afterwards.
    pub after: W,
    /// Whether a widget took the event.
    pub handled: bool,
    /// The actions of the widget that took the event; empty if none did.
    pub actions: Seq<Action>,
    /// The windows of the widgets that the event was offered to, in the
    /// order in which it was offered.
    pub offered: Seq<WindowId>,
}

/// Those of `windows` that lie on `path`, in their order.
pub open spec fn on_path(windows: Seq<WindowId>, path: Seq<WindowId>) -> Seq<WindowId>
    decreases windows.len(),
{
    if windows.len() == 0 {
        Seq::empty()
    } else {
        let rest = on_path(windows.drop_last(), path);
        if path.contains(windows.last()) {
            rest.push(windows.last())
        } else {
            rest
        }
    }
}

/// Selecting the windows on a path from two sequences joined is joining
/// what is selected from each.
pub proof fn lemma_on_path_add(a: Seq<WindowId>, b: Seq<WindowId>, path: Seq<WindowId>)
    ensures
        on_path(a + b, path) == on_path(a, path) + on_path(b, path),
    decreases b.len(),
{
    if b.len() == 0 {
        assert(a + b =~= a);
        assert(on_path(a, path) + on_path(b, path) =~= on_path(a, path));
    } else {
        assert((a + b).drop_last() =~= a + b.drop_last());
        assert((a + b).last() == b.last());
        lemma_on_path_add(a, b.drop_last(), path);
        if path.contains(b.last()) {
            assert(on_path(a + b, path) =~= on_path(a, path) + on_path(b, path));
        }
    }
}

/// The law of event dispatch. The widgets of a subtree are walked children
/// first; `chain` holds those on the focus path, so the deepest comes first.
/// The event is offered along the chain from its start and stops at the
/// first widget that takes it. If none takes it, all of the chain was asked
/// and no action is returned.
pub open spec fn dispatch_law(
    windows: Seq<WindowId>,
    path: Seq<WindowId>,
    handled: bool,
    actions: Seq<Action>,
    offered: Seq<WindowId>,
) -> bool {
    let chain = on_path(windows, path);
    &&& offered.len() <= chain.len()
    &&& offered == chain.take(offered.len() as int)
    &&& handled ==> offered.len() > 0
    &&& !handled ==> offered == chain && actions.len() == 0
}

/// A widget's own turn at an event, after `offered` were asked and declined:
/// it is asked only if its window lies on the focus path, and its actions
/// count only if it takes the event.
pub open spec fn own_turn<M: InputModel>(
    widget: M,
    window: WindowId,
    path: Seq<WindowId>,
    event: Event,
    offered: Seq<WindowId>,
) -> Routed<M> {
    if path.contains(window) {
        let reaction = widget.event_spec(event);
        Routed {
            after: reaction.after,
            handled: reaction.handled,
            actions: if reaction.handled { reaction.actions } else { Seq::empty() },
            offered: offered.push(window),
        }
    } else {
        Routed { after: widget, handled: false, actions: Seq::empty(), offered }
    }
}

/// A widget's own turn at an action, after the widgets nested in it had
/// theirs with the result `handled` and `actions`.
pub open spec fn own_share<W>(handled: bool, actions: Seq<Action>, mine: Effect<W>) -> Effect<W> {
    Effect {
        after: mine.after,
        tree: mine.tree,
        outcome: match mine.outcome {
            Ok((took, more)) => Ok((handled || took, if took { actions + more } else { actions })),
            Err(e) => Err(e),
        },
    }
}

/// `base` with the bitmap of a child window set into it: at the literal
/// coordinates of a fixed window, below everything for a normal one.
pub open spec fn place(base: Grid, child: Grid, position: Position) -> Result<Grid, Error> {
    match position {
        Position::Fixed(x, y) => base.try_blit(child, x as nat, y as nat),
        Position::Normal => base.try_blit(child, 0, base.height()),
    }
}

impl WindowTree {
    /// `base` with the bitmap of the child that owns `child_window` set into it.
    pub open spec fn stack(self, base: Grid, child: Grid, child_window: WindowId) -> Result<Grid, Error> {
        if self.valid(child_window) {
            place(base, child, self.windows[child_window.index as int].position)
        } else {
            Err(Error::InvalidWindow)
        }
    }

    /// `stack` on drawings that may already have failed.
    pub open spec fn then_stack(
        self,
        base: Result<Grid, Error>,
        child: Result<Grid, Error>,
        child_window: WindowId,
    ) -> Result<Grid, Error> {
        match base {
            Ok(grid) => match child {
                Ok(inset) => self.stack(grid, inset, child_window),
                Err(e) => Err(e),
            },
            Err(e) => Err(e),
        }
    }

    /// What the widget that owns `window` draws of itself.
    pub open spec fn own_grid<M: RenderModel>(self, widget: &M, window: WindowId, font: FontView) -> Result<
        Grid,
        Error,
    > {
        if self.valid(window) {
            widget.render_spec(font, self.windows[window.index as int])
        } else {
            Err(Error::InvalidWindow)
        }
    }
}

/// What a widget is, mathematically: its window, what is nested in it, and
/// what becomes of events, actions and drawing in its subtree.
pub trait WidgetModel: RenderModel + InputModel {
    /// The window that the widget owns.
    spec fn window(&self) -> WindowId;

    /// The windows of the widgets that are nested directly in this one now.
    spec fn child_windows(&self) -> Seq<WindowId>;

    /// The windows of the widget and of everything nested in it, in the order
    /// of a walk: what is nested comes before what holds it.
    spec fn windows(&self) -> Seq<WindowId>;

    /// What becomes of `event` in this subtree when `path` is the focus path.
    spec fn dispatch_spec(self, path: Seq<WindowId>, event: Event) -> Routed<Self>;

    /// Dispatch in every widget obeys `dispatch_law`.
    proof fn lemma_dispatch(self, path: Seq<WindowId>, event: Event)
        ensures
            dispatch_law(
                self.windows(),
                path,
                self.dispatch_spec(path, event).handled,
                self.dispatch_spec(path, event).actions,
                self.dispatch_spec(path, event).offered,
            ),
    ;

    /// What becomes of `action` in this subtree on the window tree `tree`.
    spec fn distribute_spec(self, tree: WindowTree, action: Action) -> Effect<Self>;

    /// Every subtree obeys the rule of `settles`.
    proof fn lemma_distribute_settles(self, tree: WindowTree, action: Action)
        ensures
            settles(action, self.distribute_spec(tree, action).outcome),
    ;

    /// The picture of this subtree: the widget's own drawing with the
    /// pictures of what is nested set into it, in the order of nesting.
    spec fn composite_spec(&self, tree: WindowTree, font: FontView) -> Result<Grid, Error>;

    /// The outside work that this subtree waits for, if any.
    spec fn work_spec(&self) -> Option<RequestView>;

    /// The widget after `reply` concluded the work it was waiting for.
    spec fn resume_spec(self, reply: Reply) -> Self;
}

/// The unit of the user interface: it draws itself, interprets events and
/// actions, owns one window, and owns the widgets nested in it, which
/// follow from its state.
pub trait Widget: Render + Input where Self::V: WidgetModel {
    fn windowid(&self) -> (id: WindowId)
        ensures
            id == self@.window(),
    ;

    /// The windows of the widgets that are nested directly in this one now.
    fn children(&self) -> (ids: Vec<WindowId>)
        ensures
            ids@ == self@.child_windows(),
    ;

    /// Offers `event` to the widgets of this subtree that lie on the focus
    /// path, the deepest first, until one takes it.
    fn dispatch(&mut self, disp: &DisplayManager, event: &Event) -> (result: (bool, Vec<Action>))
        requires
            disp.wf(),
        ensures
            (*old(self))@.dispatch_spec(disp@.focus_path(), *event).after == (*final(self))@,
            (*old(self))@.dispatch_spec(disp@.focus_path(), *event).handled == result.0,
            (*old(self))@.dispatch_spec(disp@.focus_path(), *event).actions == result.1@,
    ;

    /// Offers `action` to every widget of this subtree as it is now: to what
    /// is nested first, then to the widget itself, so that a widget created
    /// on the way is not asked. Stops at the first failure.
    fn distribute(&mut self, disp: &mut DisplayManager, action: &Action) -> (result: Result<
        (bool, Vec<Action>),
        Error,
    >)
        requires
            old(disp).wf(),
        ensures
            final(disp).wf(),
            (*old(self))@.distribute_spec(old(disp)@, *action) == (Effect {
                after: (*final(self))@,
                tree: final(disp)@,
                outcome: outcome_view(result),
            }),
    ;

    /// Draws this subtree.
    fn composite(&self, disp: &DisplayManager, font: &Font) -> (result: Result<Bitmap, Error>)
        requires
            disp.wf(),
            font.wf(),
        ensures
            rendered(result, self@.composite_spec(disp@, font@)),
    ;

    /// The outside work that this subtree waits for, if any.
    fn work(&self) -> (request: Option<Request>)
        ensures
            request_view(request) == self@.work_spec(),
    ;

    /// Hands the widget that waits for outside work the reply to it.
    fn resume(&mut self, reply: Reply)
        ensures
            (*final(self))@ == (*old(self))@.resume_spec(reply),
    ;
}

/// The state of one pass over the action queue.
pub struct Pass<W> {
    /// The root widget.
    pub after: W,
    /// The window tree.
    pub tree: WindowTree,
    /// How many actions of the queue were offered without failure.
    pub done: nat,
    /// How many of them were consumed.
    pub consumed: nat,
    /// Those that no widget consumed, in their order.
    pub retained: Seq<Action>,
    /// What followed from those that were consumed, in the order of arrival.
    pub emitted: Seq<Action>,
    /// The failure that stopped the pass, if one did.
    pub failure: Option<Error>,
}

impl<W> Pass<W> {
    /// The queue that the pass leaves behind: first what was not consumed,
    /// and what was never offered because the pass failed, then what was
    /// newly asked for.
    pub open spec fn queue(self, pending: Seq<Action>) -> Seq<Action> {
        self.retained + pending.skip(self.done as int) + self.emitted
    }

    pub open spec fn result(self) -> Result<(), Error> {
        match self.failure {
            Some(e) => Err(e),
            None => Ok(()),
        }
    }
}

/// One pass over the first `n` actions of `queue`, each offered in turn to
/// the whole tree under `root` as the actions before it left it.
pub open spec fn sweep<M: WidgetModel>(root: M, tree: WindowTree, queue: Seq<Action>, n: nat) -> Pass<M>
    decreases n,
{
    if n == 0 {
        Pass {
            after: root,
            tree,
            done: 0,
            consumed: 0,
            retained: Seq::empty(),
            emitted: Seq::empty(),
            failure: None,
        }
    } else {
        let before = sweep(root, tree, queue, (n - 1) as nat);
        if before.failure is Some {
            before
        } else {
            let action = queue[n - 1];
            let effect = before.after.distribute_spec(before.tree, action);
            match effect.outcome {
                Err(e) => Pass { after: effect.after, tree: effect.tree, failure: Some(e), ..before },
                Ok((handled, more)) => if handled {
                    Pass {
                        after: effect.after,
                        tree: effect.tree,
                        done: n,
                        consumed: before.consumed + 1,
                        emitted: before.emitted + more,
                        ..before
                    }
                } else {
                    Pass {
                        after: effect.after,
                        tree: effect.tree,
                        done: n,
                        retained: before.retained.push(action),
                        ..before
                    }
                },
            }
        }
    }
}

/// What `on_event` of the manager returns and leaves behind.
pub open spec fn on_event_spec<M: WidgetModel>(tree: WindowTree, root: M, event: Event) -> (M, Result<
    Seq<Action>,
    Error,
>) {
    if tree.valid(root.window()) {
        let routed = root.dispatch_spec(tree.focus_path(), event);
        (routed.after, Ok(routed.actions))
    } else {
        (root, Err(Error::InvalidWindow))
    }
}

impl DisplayManager {
    /// Gives the widget that owns `window` its own turn at `event`.
    pub fn deliver<W: Input>(&self, window: WindowId, widget: &mut W, event: &Event) -> (result: (
        bool,
        Vec<Action>,
    )) where W::V: InputModel
        requires
            self.wf(),
        ensures
            own_turn((*old(widget))@, window, self@.focus_path(), *event, Seq::empty()).after == (*final(widget))@,
            own_turn((*old(widget))@, window, self@.focus_path(), *event, Seq::empty()).handled == result.0,
            own_turn((*old(widget))@, window, self@.focus_path(), *event, Seq::empty()).actions == result.1@,
    {
        if self.is_on_focus_path(window) {
            let (handled, actions) = widget.on_event(event);
            if handled {
                (true, actions)
            } else {
                (false, Vec::new())
            }
        } else {
            (false, Vec::new())
        }
    }

    /// Gives `widget` its own turn at `action`, after the widgets nested in
    /// it had theirs with the result `handled` and `actions`.
    pub fn offer<W: Input>(&mut self, widget: &mut W, action: &Action, handled: bool, actions: Vec<Action>) -> (result:
        Result<(bool, Vec<Action>), Error>) where W::V: InputModel
        requires
            old(self).wf(),
        ensures
            final(self).wf(),
            own_share(handled, actions@, (*old(widget))@.action_spec(old(self)@, *action)) == (Effect {
                after: (*final(widget))@,
                tree: final(self)@,
                outcome: outcome_view(result),
            }),
    {
        match widget.do_action(self, action) {
            Ok((took, more)) => {
                let mut all = actions;
                if took {
                    let mut more = more;
                    all.append(&mut more);
                }
                Ok((handled || took, all))
            },
            Err(e) => Err(e),
        }
    }

    /// What the widget that owns `window` draws of itself.
    pub fn draw<W: Render>(&self, widget: &W, window: WindowId, font: &Font) -> (result: Result<Bitmap, Error>) where
        W::V: RenderModel,

        requires
            self.wf(),
            font.wf(),
        ensures
            rendered(result, self@.own_grid(&widget@, window, font@)),
    {
        match self.get(window) {
            Some(state) => widget.render(font, &state),
            None => Err(Error::InvalidWindow),
        }
    }

    /// Sets the picture of the child that owns `child_window` into `base`.
    /// On failure `base` stays as it was.
    pub fn stack(&self, base: &mut Bitmap, child: &Bitmap, child_window: WindowId) -> (result: Result<
        (),
        Error,
    >)
        requires
            self.wf(),
            old(base).wf(),
            child.wf(),
        ensures
            final(base).wf(),
            match self@.stack(old(base)@, child@, child_window) {
                Ok(grid) => result == Ok::<(), Error>(()) && final(base)@ == grid,
                Err(e) => result == Err::<(), Error>(e) && final(base)@ == old(base)@,
            },
    {
        match self.get(child_window) {
            Some(state) => match state.position {
                Position::Fixed(x, y) => base.try_blit(child, (x, y)),
                Position::Normal => {
                    let below: usize = base.height();
                    base.try_blit(child, (0, below))
                },
            },
            None => Err(Error::InvalidWindow),
        }
    }

    /// Delivers `event` along the focus path of the tree under `root`, the
    /// deepest widget first, and returns the actions of the widget that took
    /// it; none if no widget did. Fails, and changes nothing, if the window
    /// of `root` is no window of this manager.
    pub fn on_event<W: Widget>(&self, root: &mut W, event: &Event) -> (result: Result<Vec<Action>, Error>) where
        W::V: WidgetModel,

        requires
            self.wf(),
        ensures
            on_event_spec(self@, (*old(root))@, *event).0 == (*final(root))@,
            match on_event_spec(self@, (*old(root))@, *event).1 {
                Ok(actions) => result matches Ok(list) && list@ == actions,
                Err(e) => result matches Err(f) && f == e,
            },
    {
        if self.get(root.windowid()).is_none() {
            return Err(Error::InvalidWindow);
        }
        let (_, actions) = root.dispatch(self, event);
        Ok(actions)
    }

    /// One pass over the pending actions: each is offered to every widget of
    /// the tree under `root`. An action that a widget consumed leaves the
    /// queue, and what follows from it joins the queue at its end; an action
    /// that no widget consumed stays. The pass stops at the first failure.
    pub fn do_actions<W: Widget>(&mut self, root: &mut W, actions: &mut Vec<Action>) -> (result: Result<
        (),
        Error,
    >) where W::V: WidgetModel
        requires
            old(self).wf(),
        ensures
            final(self).wf(),
            sweep((*old(root))@, old(self)@, old(actions)@, old(actions)@.len()).after == (*final(root))@,
            sweep((*old(root))@, old(self)@, old(actions)@, old(actions)@.len()).tree == final(self)@,
            sweep((*old(root))@, old(self)@, old(actions)@, old(actions)@.len()).queue(old(actions)@)
                == final(actions)@,
            sweep((*old(root))@, old(self)@, old(actions)@, old(actions)@.len()).result() == result,
    {
        let ghost root0 = root@;
        let ghost tree0 = self@;
        let ghost queue0 = actions@;
        let count: usize = actions.len();
        let mut retained: Vec<Action> = Vec::new();
        let mut emitted: Vec<Action> = Vec::new();
        let mut i: usize = 0;
        while i < count
            invariant
                self.wf(),
                i <= count,
                count == queue0.len(),
                actions@ == queue0,
                root0 == (*old(root))@,
                tree0 == old(self)@,
                queue0 == old(actions)@,
                sweep(root0, tree0, queue0, i as nat).failure is None,
                sweep(root0, tree0, queue0, i as nat).after == root@,
                sweep(root0, tree0, queue0, i as nat).tree == self@,
                sweep(root0, tree0, queue0, i as nat).done == i,
                sweep(root0, tree0, queue0, i as nat).retained == retained@,
                sweep(root0, tree0, queue0, i as nat).emitted == emitted@,
            decreases count - i,
        {
            let outcome = root.distribute(self, &actions[i]);
            match outcome {
                Err(e) => {
                    let ghost failed = sweep(root0, tree0, queue0, (i + 1) as nat);
                    let mut k: usize = i;
                    while k < count
                        invariant
                            i <= k <= count,
                            count == queue0.len(),
                            actions@ == queue0,
                            root0 == (*old(root))@,
                            tree0 == old(self)@,
                            queue0 == old(actions)@,
                            failed == sweep(root0, tree0, queue0, (i + 1) as nat),
                            failed.failure == Some(e),
                            failed.after == root@,
                            failed.tree == self@,
                            failed.done == i,
                            failed.emitted == emitted@,
                            self.wf(),
                            retained@ == failed.retained + queue0.subrange(i as int, k as int),
                        decreases count - k,
                    {
                        retained.push(actions[k].duplicate());
                        assert(queue0.subrange(i as int, k + 1) =~= queue0.subrange(i as int, k as int).push(
                            queue0[k as int],
                        ));
                        k += 1;
                    }
                    assert(queue0.subrange(i as int, count as int) =~= queue0.skip(i as int));
                    retained.append(&mut emitted);
                    *actions = retained;
                    proof {
                        lemma_sweep_stays_failed(root0, tree0, queue0, (i + 1) as nat, count as nat);
                    }
                    return Err(e);
                },
                Ok((handled, more)) => {
                    if handled {
                        let mut more = more;
                        emitted.append(&mut more);
                    } else {
                        retained.push(actions[i].duplicate());
                    }
                },
            }
            i += 1;
        }
        retained.append(&mut emitted);
        *actions = retained;
        assert(queue0.skip(count as int) =~= Seq::<Action>::empty());
        assert(actions@ =~= sweep(root0, tree0, queue0, count as nat).queue(queue0));
        Ok(())
    }

    /// The picture of the tree under `root`. Neither the manager nor the
    /// tree changes.
    pub fn render<W: Widget>(&self, root: &W, font: &Font) -> (result: Result<Bitmap, Error>) where
        W::V: WidgetModel,

        requires
            self.wf(),
            font.wf(),
        ensures
            rendered(result, root@.composite_spec(self@, font@)),
    {
        root.composite(self, font)
    }
}

/// A pass that failed offers no further action.
pub proof fn lemma_sweep_stays_failed<M: WidgetModel>(root: M, tree: WindowTree, queue: Seq<Action>, n: nat, m: nat)
    requires
        n <= m,
        sweep(root, tree, queue, n).failure is Some,
    ensures
        sweep(root, tree, queue, m) == sweep(root, tree, queue, n),
    decreases m,
{
    if m > n {
        lemma_sweep_stays_failed(root, tree, queue, n, (m - 1) as nat);
    }
}

/// Dispatch that obeyed the law below a widget and found no taker obeys it
/// with the widget's own turn added.
pub proof fn lemma_own_turn<M: InputModel>(
    widget: M,
    window: WindowId,
    path: Seq<WindowId>,
    event: Event,
    below: Seq<WindowId>,
    actions: Seq<Action>,
    offered: Seq<WindowId>,
)
    requires
        dispatch_law(below, path, false, actions, offered),
    ensures
        dispatch_law(
            below.push(window),
            path,
            own_turn(widget, window, path, event, offered).handled,
            own_turn(widget, window, path, event, offered).actions,
            own_turn(widget, window, path, event, offered).offered,
        ),
{
    let turn = own_turn(widget, window, path, event, offered);
    let chain = on_path(below.push(window), path);
    assert(below.push(window).drop_last() =~= below);
    assert(turn.offered =~= chain);
    assert(chain.take(chain.len() as int) =~= chain);
}

/// Dispatch that obeyed the law below a widget and found a taker obeys it
/// for the widget as a whole.
pub proof fn lemma_taken_below(
    window: WindowId,
    path: Seq<WindowId>,
    below: Seq<WindowId>,
    actions: Seq<Action>,
    offered: Seq<WindowId>,
)
    requires
        dispatch_law(below, path, true, actions, offered),
    ensures
        dispatch_law(below.push(window), path, true, actions, offered),
{
    let chain = on_path(below.push(window), path);
    assert(below.push(window).drop_last() =~= below);
    assert(offered =~= chain.take(offered.len() as int));
}

/// A widget that asks for nothing when it consumes an action keeps the
/// rule of `settles` for itself and what is nested in it.
pub proof fn lemma_own_share_settles<W>(action: Action, handled: bool, actions: Seq<Action>, mine: Effect<W>)
    requires
        settles(action, Ok((handled, actions))),
        mine.outcome matches Ok((took, more)) ==> more.len() == 0,
    ensures
        settles(action, own_share(handled, actions, mine).outcome),
{
    match mine.outcome {
        Ok((took, more)) => {
            assert(actions + more =~= actions);
            assert(queue_weight(Seq::<Action>::empty()) == 0);
        },
        Err(_) => {},
    }
}

/// Dispatch that obeyed the law in a subtree obeys it for the subtree
/// together with widgets that were walked before it and all declined.
pub proof fn lemma_after_declined(
    before: Seq<WindowId>,
    path: Seq<WindowId>,
    windows: Seq<WindowId>,
    handled: bool,
    actions: Seq<Action>,
    offered: Seq<WindowId>,
)
    requires
        dispatch_law(windows, path, handled, actions, offered),
    ensures
        dispatch_law(before + windows, path, handled, actions, on_path(before, path) + offered),
{
    lemma_on_path_add(before, windows, path);
    let asked = on_path(before, path);
    let chain = on_path(windows, path);
    let all = asked + offered;
    assert(all =~= (asked + chain).take(all.len() as int));
    if !handled {
        assert(all =~= asked + chain);
    }
}

} // verus!
