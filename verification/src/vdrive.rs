use vstd::prelude::*;
use crate::action::Action;
use crate::backend::{Reply, Request, RequestView};
use crate::bitmap::{Bitmap, Grid};
use crate::controller::Event;
use crate::displaymanager::{
    on_path, own_share, own_turn, DisplayManager, Position, Routed, Widget, WidgetModel, Window, WindowId,
    WindowTree,
};
use crate::error::Error;
use crate::font::{Font, FontView};
use crate::input::{Effect, Input, InputModel, Reaction};
use crate::lvm::Volume;
use crate::render::{draw_text, then_blit, then_text, Render, RenderModel};

verus! {

/// The menu entry of one virtual drive: a logical volume that is shown by
/// its name.
#[derive(Clone, Debug, PartialEq, Eq)]
pub struct VirtualDrive {
    pub window: WindowId,
    pub volume: Volume,
}

impl VirtualDrive {
    /// Makes the entry for `volume` in a new window that is stacked into its
    /// parent. Fails, and changes nothing, if the manager has no window left.
    pub fn new(disp: &mut DisplayManager, volume: Volume) -> (result: Result<VirtualDrive, Error>)
        requires
            old(disp).wf(),
        ensures
            final(disp).wf(),
            old(disp)@.has_room() ==> final(disp)@ == old(disp)@.add_child(Position::Normal) && result == Ok::<
                VirtualDrive,
                Error,
            >(VirtualDrive { window: old(disp)@.next_id(), volume }),
            !old(disp)@.has_room() ==> final(disp)@ == old(disp)@ && result == Err::<VirtualDrive, Error>(
                Error::WindowsExhausted,
            ),
    {
        match disp.add_child(Position::Normal) {
            Ok(window) => Ok(VirtualDrive { window, volume }),
            Err(e) => Err(e),
        }
    }

    /// The entry without the arrow: the name of the volume, moved right to
    /// leave room for the arrow.
    pub open spec fn entry(&self, font: FontView) -> Result<Grid, Error> {
        then_text(Ok(Grid::blank(0, 0)), font, self.volume.name@, 12, 0)
    }
}

impl View for VirtualDrive {
    type V = VirtualDrive;

    open spec fn view(&self) -> VirtualDrive {
        *self
    }
}

impl RenderModel for VirtualDrive {
    /// The entry, with the arrow before it while its window has the focus.
    open spec fn render_spec(&self, font: FontView, window: Window) -> Result<Grid, Error> {
        if window.focus {
            then_blit(self.entry(font), font.arrow, 0, 0)
        } else {
            self.entry(font)
        }
    }
}

impl Render for VirtualDrive {
    fn render(&self, font: &Font, window: &Window) -> (result: Result<Bitmap, Error>) {
        let mut base = Bitmap::new(0, 0);
        draw_text(&mut base, font, self.volume.name.as_str(), (12, 0))?;
        if window.focus {
            base.try_blit(font.arrow(), (0, 0))?;
        }
        Ok(base)
    }
}

impl InputModel for VirtualDrive {
    /// A drive takes no event.
    open spec fn event_spec(self, event: Event) -> Reaction<VirtualDrive> {
        Reaction { after: self, handled: false, actions: Seq::empty() }
    }

    /// A drive takes no action.
    open spec fn action_spec(self, tree: WindowTree, action: Action) -> Effect<VirtualDrive> {
        Effect { after: self, tree, outcome: Ok((false, Seq::empty())) }
    }

    proof fn lemma_action_settles(self, tree: WindowTree, action: Action) {
    }
}

impl Input for VirtualDrive {
    fn on_event(&mut self, event: &Event) -> (result: (bool, Vec<Action>)) {
        (false, Vec::new())
    }

    fn do_action(&mut self, disp: &mut DisplayManager, action: &Action) -> (result: Result<
        (bool, Vec<Action>),
        Error,
    >) {
        Ok((false, Vec::new()))
    }
}

impl WidgetModel for VirtualDrive {
    open spec fn window(&self) -> WindowId {
        self.window
    }

    open spec fn child_windows(&self) -> Seq<WindowId> {
        Seq::empty()
    }

    open spec fn windows(&self) -> Seq<WindowId> {
        seq![self.window]
    }

    open spec fn dispatch_spec(self, path: Seq<WindowId>, event: Event) -> Routed<VirtualDrive> {
        own_turn(self, self.window, path, event, Seq::empty())
    }

    proof fn lemma_dispatch(self, path: Seq<WindowId>, event: Event) {
        reveal_with_fuel(on_path, 2);
        let windows = seq![self.window];
        assert(windows.drop_last() =~= Seq::<WindowId>::empty());
        let chain = on_path(windows, path);
        let offered = self.dispatch_spec(path, event).offered;
        assert(offered =~= chain);
        assert(chain.take(chain.len() as int) =~= chain);
    }

    open spec fn distribute_spec(self, tree: WindowTree, action: Action) -> Effect<VirtualDrive> {
        own_share(false, Seq::empty(), self.action_spec(tree, action))
    }

    proof fn lemma_distribute_settles(self, tree: WindowTree, action: Action) {
    }

    open spec fn composite_spec(&self, tree: WindowTree, font: FontView) -> Result<Grid, Error> {
        tree.own_grid(self, self.window, font)
    }

    open spec fn work_spec(&self) -> Option<RequestView> {
        None
    }

    open spec fn resume_spec(self, reply: Reply) -> VirtualDrive {
        self
    }
}

impl Widget for VirtualDrive {
    fn windowid(&self) -> (id: WindowId) {
        self.window
    }

    fn children(&self) -> (ids: Vec<WindowId>) {
        Vec::new()
    }

    fn dispatch(&mut self, disp: &DisplayManager, event: &Event) -> (result: (bool, Vec<Action>)) {
        disp.deliver(self.window, self, event)
    }

    fn distribute(&mut self, disp: &mut DisplayManager, action: &Action) -> (result: Result<
        (bool, Vec<Action>),
        Error,
    >) {
        disp.offer(self, action, false, Vec::new())
    }

    fn composite(&self, disp: &DisplayManager, font: &Font) -> (result: Result<Bitmap, Error>) {
        disp.draw(self, self.window, font)
    }

    fn work(&self) -> (request: Option<Request>) {
        None
    }

    fn resume(&mut self, reply: Reply) {
    }
}

} // verus!
