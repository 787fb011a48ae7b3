use vstd::prelude::*;
use crate::action::{queue_weight, Action};
use crate::backend::{Reply, Request, RequestView};
use crate::bitmap::{Bitmap, Grid};
use crate::controller::Event;
use crate::displaymanager::{
    lemma_after_declined, lemma_own_share_settles, lemma_own_turn, lemma_taken_below, on_path, own_share,
    own_turn, DisplayManager, Position, Routed, Widget, WidgetModel, Window, WindowId, WindowTree,
};
use crate::error::Error;
use crate::font::{Font, FontView};
use crate::input::{Effect, Input, InputModel, Reaction};
use crate::lvm::{Volume, VolumeGroup};
use crate::newdrive::NewDrive;
use crate::render::{Render, RenderModel};
use crate::vdrive::VirtualDrive;

verus! {

/// The application widget: the menu of the drives that exist, and below
/// them the entry that makes a new one.
#[derive(Clone, Debug, PartialEq, Eq)]
pub struct PIso {
    pub drives: Vec<VirtualDrive>,
    pub newdrive: NewDrive,
    pub window: WindowId,
}

/// The mathematical content of the application widget.
pub struct PIsoView {
    pub drives: Seq<VirtualDrive>,
    pub newdrive: NewDrive,
    pub window: WindowId,
}

impl View for PIso {
    type V = PIsoView;

    open spec fn view(&self) -> PIsoView {
        PIsoView { drives: self.drives@, newdrive: self.newdrive, window: self.window }
    }
}

/// The windows of `drives`, in their order.
pub open spec fn drive_windows(drives: Seq<VirtualDrive>) -> Seq<WindowId> {
    Seq::new(drives.len(), |i: int| drives[i].window)
}

/// The entries for `volumes`, in their order, when their windows are made
/// one after the other and the first becomes window number `first`.
pub open spec fn drives_of(first: nat, volumes: Seq<Volume>) -> Seq<VirtualDrive> {
    Seq::new(
        volumes.len(),
        |i: int| VirtualDrive { window: WindowId { index: (first + i) as usize }, volume: volumes[i] },
    )
}

/// `base` with the pictures of `drives` stacked into it, in their order.
pub open spec fn stack_drives(tree: WindowTree, font: FontView, base: Result<Grid, Error>, drives: Seq<
    VirtualDrive,
>) -> Result<Grid, Error>
    decreases drives.len(),
{
    if drives.len() == 0 {
        base
    } else {
        tree.then_stack(
            stack_drives(tree, font, base, drives.drop_last()),
            drives.last().composite_spec(tree, font),
            drives.last().window,
        )
    }
}

impl PIsoView {
    /// The widget with an entry for `volume` added at the end of its drives,
    /// in a new window under its own. The first drive to exist gets the
    /// focus. Fails if the widget's window is unknown or no window is left.
    pub open spec fn add_drive_spec(self, tree: WindowTree, volume: Volume) -> Effect<PIsoView> {
        if !tree.valid(self.window) {
            Effect { after: self, tree, outcome: Err(Error::InvalidWindow) }
        } else if !tree.has_room() {
            Effect { after: self, tree: tree.enter(self.window), outcome: Err(Error::WindowsExhausted) }
        } else {
            let drive = VirtualDrive { window: tree.next_id(), volume };
            let made = tree.enter(self.window).add_child(Position::Normal);
            Effect {
                after: PIsoView { drives: self.drives.push(drive), ..self },
                tree: if self.drives.len() == 0 {
                    made.shift_focus(drive.window)
                } else {
                    made
                },
                outcome: Ok((true, Seq::empty())),
            }
        }
    }

    /// The application widget for a volume group of `vg_size` bytes that
    /// holds `volumes`, made on the window tree `tree`, and the tree
    /// afterwards. Its window hangs under the root, the entries under its
    /// window. The focus goes to the first drive; where there is no drive,
    /// it stays with the window that has it. Fails when the windows run out.
    pub open spec fn start(tree: WindowTree, vg_size: u64, volumes: Seq<Volume>) -> (
        Result<PIsoView, Error>,
        WindowTree,
    ) {
        let rooted = tree.enter(WindowTree::root());
        if !rooted.has_room() {
            (Err(Error::WindowsExhausted), rooted)
        } else {
            let window = rooted.next_id();
            let entered = rooted.add_child(Position::Normal).enter(window);
            if volumes.len() > entered.room() {
                (Err(Error::WindowsExhausted), entered.grow(entered.room()))
            } else {
                let listed = entered.grow(volumes.len());
                let drives = drives_of(entered.windows.len(), volumes);
                if !listed.has_room() {
                    (Err(Error::WindowsExhausted), listed)
                } else {
                    let newdrive = NewDrive::made(listed.next_id(), vg_size);
                    let made = listed.add_child(Position::Normal);
                    (
                        Ok(PIsoView { drives, newdrive, window }),
                        if drives.len() > 0 {
                            made.shift_focus(drives[0].window)
                        } else {
                            made
                        },
                    )
                }
            }
        }
    }
}

impl PIso {
    /// Makes the application widget for the volume group `vg`: its own
    /// window under the root, an entry for each volume, and the entry for a
    /// new drive. The first drive gets the focus; without a drive the focus
    /// stays where it is.
    pub fn new(disp: &mut DisplayManager, vg: &VolumeGroup) -> (result: Result<PIso, Error>)
        requires
            old(disp).wf(),
        ensures
            final(disp).wf(),
            final(disp)@ == PIsoView::start(old(disp)@, vg.vg_size, vg.volumes@).1,
            match PIsoView::start(old(disp)@, vg.vg_size, vg.volumes@).0 {
                Ok(view) => result matches Ok(piso) && piso@ == view,
                Err(e) => result matches Err(f) && f == e,
            },
    {
        let root = disp.root();
        disp.enter(root)?;
        let window = disp.add_child(Position::Normal)?;
        disp.enter(window)?;
        let drives = PIso::build_drives_from_vg(disp, vg)?;
        let newdrive = NewDrive::new(disp, vg.vg_size)?;
        if drives.len() > 0 {
            let first = drives[0].window;
            proof {
                lemma_grow(
                    old(disp)@.enter(WindowTree::root()).add_child(Position::Normal).enter(window),
                    vg.volumes@.len(),
                );
            }
            disp.shift_focus(first)?;
        }
        Ok(PIso { drives, newdrive, window })
    }

    /// Makes an entry for each volume of `vg`, in the order of the volumes,
    /// each in a new window under the current context. Fails when the
    /// windows run out; the windows made until then stay.
    pub fn build_drives_from_vg(disp: &mut DisplayManager, vg: &VolumeGroup) -> (result: Result<
        Vec<VirtualDrive>,
        Error,
    >)
        requires
            old(disp).wf(),
        ensures
            final(disp).wf(),
            vg.volumes@.len() <= old(disp)@.room() ==> final(disp)@ == old(disp)@.grow(vg.volumes@.len()) && (
            result matches Ok(drives) && drives@ == drives_of(old(disp)@.windows.len(), vg.volumes@)),
            vg.volumes@.len() > old(disp)@.room() ==> final(disp)@ == old(disp)@.grow(old(disp)@.room()) && (
            result matches Err(e) && e == Error::WindowsExhausted),
    {
        let ghost tree = disp@;
        let mut drives: Vec<VirtualDrive> = Vec::new();
        let mut i: usize = 0;
        while i < vg.volumes.len()
            invariant
                disp.wf(),
                tree == old(disp)@,
                tree.wf(),
                i <= vg.volumes@.len(),
                i <= tree.room(),
                disp@ == tree.grow(i as nat),
                drives@ == drives_of(tree.windows.len(), vg.volumes@.take(i as int)),
            decreases vg.volumes@.len() - i,
        {
            proof {
                lemma_grow(tree, i as nat);
            }
            match VirtualDrive::new(disp, vg.volumes[i].duplicate()) {
                Ok(drive) => {
                    drives.push(drive);
                    assert(drives@ =~= drives_of(tree.windows.len(), vg.volumes@.take(i + 1)));
                },
                Err(e) => {
                    return Err(e);
                },
            }
            i += 1;
        }
        assert(vg.volumes@.take(i as int) =~= vg.volumes@);
        Ok(drives)
    }

    /// Adds an entry for `volume` at the end of the drives, in a new window
    /// under this widget's own, and returns it. The first drive to exist
    /// gets the focus.
    pub fn add_drive(&mut self, disp: &mut DisplayManager, volume: Volume) -> (result: Result<
        &VirtualDrive,
        Error,
    >)
        requires
            old(disp).wf(),
        ensures
            final(disp).wf(),
            (*final(self))@ == (*old(self))@.add_drive_spec(old(disp)@, volume).after,
            final(disp)@ == (*old(self))@.add_drive_spec(old(disp)@, volume).tree,
            match (*old(self))@.add_drive_spec(old(disp)@, volume).outcome {
                Ok(_) => result matches Ok(drive) && *drive == (*final(self))@.drives.last(),
                Err(e) => result matches Err(f) && f == e,
            },
    {
        disp.enter(self.window)?;
        let drive = VirtualDrive::new(disp, volume)?;
        self.drives.push(drive);
        if self.drives.len() == 1 {
            let first = self.drives[0].window;
            disp.shift_focus(first)?;
        }
        let last: usize = self.drives.len() - 1;
        Ok(&self.drives[last])
    }
}

/// Growing a tree adds windows and changes nothing else.
pub proof fn lemma_grow(tree: WindowTree, count: nat)
    requires
        tree.wf(),
        count <= tree.room(),
    ensures
        tree.grow(count).wf(),
        tree.grow(count).windows.len() == tree.windows.len() + count,
        tree.grow(count).limit == tree.limit,
        tree.grow(count).context == tree.context,
        tree.grow(count).focused == tree.focused,
        forall|i: int| 0 <= i < tree.windows.len() ==> tree.grow(count).windows[i] == tree.windows[i],
    decreases count,
{
    if count > 0 {
        lemma_grow(tree, (count - 1) as nat);
    }
}

/// Once the stacking of drives has failed, it stays failed.
pub proof fn lemma_stack_stays_failed(
    tree: WindowTree,
    font: FontView,
    base: Result<Grid, Error>,
    drives: Seq<VirtualDrive>,
    n: int,
    m: int,
)
    requires
        0 <= n <= m <= drives.len(),
        stack_drives(tree, font, base, drives.take(n)) is Err,
    ensures
        stack_drives(tree, font, base, drives.take(m)) == stack_drives(tree, font, base, drives.take(n)),
    decreases m - n,
{
    if m > n {
        lemma_stack_stays_failed(tree, font, base, drives, n, m - 1);
        assert(drives.take(m).drop_last() =~= drives.take(m - 1));
    }
}

impl RenderModel for PIsoView {
    /// The application widget draws nothing of its own.
    open spec fn render_spec(&self, font: FontView, window: Window) -> Result<Grid, Error> {
        Ok(Grid::blank(0, 0))
    }
}

impl Render for PIso {
    fn render(&self, font: &Font, window: &Window) -> (result: Result<Bitmap, Error>) {
        Ok(Bitmap::new(0, 0))
    }
}

impl InputModel for PIsoView {
    /// The application widget takes no event.
    open spec fn event_spec(self, event: Event) -> Reaction<PIsoView> {
        Reaction { after: self, handled: false, actions: Seq::empty() }
    }

    /// `CreateDrive` adds the volume to the drives; every other action is
    /// left alone.
    open spec fn action_spec(self, tree: WindowTree, action: Action) -> Effect<PIsoView> {
        match action {
            Action::CreateDrive(volume) => self.add_drive_spec(tree, volume),
            _ => Effect { after: self, tree, outcome: Ok((false, Seq::empty())) },
        }
    }

    proof fn lemma_action_settles(self, tree: WindowTree, action: Action) {
        assert(queue_weight(Seq::<Action>::empty()) == 0);
    }
}

impl Input for PIso {
    fn on_event(&mut self, event: &Event) -> (result: (bool, Vec<Action>)) {
        (false, Vec::new())
    }

    fn do_action(&mut self, disp: &mut DisplayManager, action: &Action) -> (result: Result<
        (bool, Vec<Action>),
        Error,
    >) {
        match action {
            Action::CreateDrive(volume) => {
                match self.add_drive(disp, volume.duplicate()) {
                    Ok(_) => Ok((true, Vec::new())),
                    Err(e) => Err(e),
                }
            },
            _ => Ok((false, Vec::new())),
        }
    }
}

impl WidgetModel for PIsoView {
    open spec fn window(&self) -> WindowId {
        self.window
    }

    /// The drives, then the entry for a new drive.
    open spec fn child_windows(&self) -> Seq<WindowId> {
        drive_windows(self.drives).push(self.newdrive.window)
    }

    open spec fn windows(&self) -> Seq<WindowId> {
        (drive_windows(self.drives) + self.newdrive.windows()).push(self.window)
    }

    /// The drives take no event; it goes to the entry for a new drive and
    /// what it holds, then to the application widget itself.
    open spec fn dispatch_spec(self, path: Seq<WindowId>, event: Event) -> Routed<PIsoView> {
        let asked = on_path(drive_windows(self.drives), path);
        let below = self.newdrive.dispatch_spec(path, event);
        let held = PIsoView { newdrive: below.after, ..self };
        if below.handled {
            Routed { after: held, handled: true, actions: below.actions, offered: asked + below.offered }
        } else {
            own_turn(held, self.window, path, event, asked + below.offered)
        }
    }

    proof fn lemma_dispatch(self, path: Seq<WindowId>, event: Event) {
        self.newdrive.lemma_dispatch(path, event);
        let below = self.newdrive.dispatch_spec(path, event);
        let held = PIsoView { newdrive: below.after, ..self };
        let before = drive_windows(self.drives);
        let asked = on_path(before, path);
        lemma_after_declined(before, path, self.newdrive.windows(), below.handled, below.actions, below.offered);
        if below.handled {
            lemma_taken_below(
                self.window,
                path,
                before + self.newdrive.windows(),
                below.actions,
                asked + below.offered,
            );
        } else {
            lemma_own_turn(
                held,
                self.window,
                path,
                event,
                before + self.newdrive.windows(),
                below.actions,
                asked + below.offered,
            );
        }
    }

    /// The drives take no action; it goes to the entry for a new drive and
    /// what it holds, then to the application widget itself.
    open spec fn distribute_spec(self, tree: WindowTree, action: Action) -> Effect<PIsoView> {
        let below = self.newdrive.distribute_spec(tree, action);
        let held = PIsoView { newdrive: below.after, ..self };
        match below.outcome {
            Ok((handled, actions)) => own_share(handled, actions, held.action_spec(below.tree, action)),
            Err(e) => Effect { after: held, tree: below.tree, outcome: Err(e) },
        }
    }

    proof fn lemma_distribute_settles(self, tree: WindowTree, action: Action) {
        self.newdrive.lemma_distribute_settles(tree, action);
        let below = self.newdrive.distribute_spec(tree, action);
        let held = PIsoView { newdrive: below.after, ..self };
        match below.outcome {
            Ok((handled, actions)) => {
                lemma_own_share_settles(action, handled, actions, held.action_spec(below.tree, action));
            },
            Err(_) => {},
        }
    }

    /// The drives stacked in their order, and below them the entry for a
    /// new drive with what it holds.
    open spec fn composite_spec(&self, tree: WindowTree, font: FontView) -> Result<Grid, Error> {
        let base = tree.own_grid(self, self.window, font);
        let listed = stack_drives(tree, font, base, self.drives);
        tree.then_stack(listed, self.newdrive.composite_spec(tree, font), self.newdrive.window)
    }

    open spec fn work_spec(&self) -> Option<RequestView> {
        self.newdrive.work_spec()
    }

    open spec fn resume_spec(self, reply: Reply) -> PIsoView {
        PIsoView { newdrive: self.newdrive.resume_spec(reply), ..self }
    }
}

impl Widget for PIso {
    fn windowid(&self) -> (id: WindowId) {
        self.window
    }

    fn children(&self) -> (ids: Vec<WindowId>) {
        let mut ids: Vec<WindowId> = Vec::new();
        let mut i: usize = 0;
        while i < self.drives.len()
            invariant
                i <= self.drives@.len(),
                ids@ == drive_windows(self.drives@.take(i as int)),
            decreases self.drives@.len() - i,
        {
            ids.push(self.drives[i].window);
            assert(ids@ =~= drive_windows(self.drives@.take(i + 1)));
            i += 1;
        }
        assert(self.drives@.take(i as int) =~= self.drives@);
        ids.push(self.newdrive.window);
        ids
    }

    fn dispatch(&mut self, disp: &DisplayManager, event: &Event) -> (result: (bool, Vec<Action>)) {
        let below = self.newdrive.dispatch(disp, event);
        if below.0 {
            return below;
        }
        disp.deliver(self.window, self, event)
    }

    fn distribute(&mut self, disp: &mut DisplayManager, action: &Action) -> (result: Result<
        (bool, Vec<Action>),
        Error,
    >) {
        match self.newdrive.distribute(disp, action) {
            Ok((handled, actions)) => disp.offer(self, action, handled, actions),
            Err(e) => Err(e),
        }
    }

    fn composite(&self, disp: &DisplayManager, font: &Font) -> (result: Result<Bitmap, Error>) {
        let ghost drawn = disp@.own_grid(&self@, self.window, font@);
        let mut base = match disp.draw(self, self.window, font) {
            Ok(bitmap) => bitmap,
            Err(e) => {
                proof {
                    assert(self.drives@.take(0) =~= Seq::<VirtualDrive>::empty());
                    lemma_stack_stays_failed(disp@, font@, drawn, self.drives@, 0, self.drives@.len() as int);
                    assert(self.drives@.take(self.drives@.len() as int) =~= self.drives@);
                }
                return Err(e);
            },
        };
        assert(self.drives@.take(0) =~= Seq::<VirtualDrive>::empty());
        let mut i: usize = 0;
        while i < self.drives.len()
            invariant
                disp.wf(),
                font.wf(),
                base.wf(),
                i <= self.drives@.len(),
                stack_drives(disp@, font@, drawn, self.drives@.take(i as int)) == Ok::<Grid, Error>(base@),
                drawn == disp@.own_grid(&self@, self.window, font@),
            decreases self.drives@.len() - i,
        {
            assert(self.drives@.take(i + 1).drop_last() =~= self.drives@.take(i as int));
            assert(self.drives@.take(i + 1).last() == self.drives@[i as int]);
            let placed = match self.drives[i].composite(disp, font) {
                Ok(inset) => disp.stack(&mut base, &inset, self.drives[i].window),
                Err(e) => Err(e),
            };
            if let Err(e) = placed {
                proof {
                    lemma_stack_stays_failed(disp@, font@, drawn, self.drives@, i + 1, self.drives@.len() as int);
                    assert(self.drives@.take(self.drives@.len() as int) =~= self.drives@);
                }
                return Err(e);
            }
            i += 1;
        }
        assert(self.drives@.take(i as int) =~= self.drives@);
        let inset = self.newdrive.composite(disp, font)?;
        disp.stack(&mut base, &inset, self.newdrive.window)?;
        Ok(base)
    }

    fn work(&self) -> (request: Option<Request>) {
        self.newdrive.work()
    }

    fn resume(&mut self, reply: Reply) {
        self.newdrive.resume(reply)
    }
}

} // verus!
