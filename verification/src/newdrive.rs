use vstd::prelude::*;
use vstd::string::*;
use crate::action::{queue_weight, Action};
use crate::backend::{Reply, Request, RequestView};
use crate::bitmap::{with_border, Bitmap, BorderStyle, Grid};
use crate::controller::Event;
use crate::displaymanager::{
    lemma_own_share_settles, lemma_own_turn, lemma_taken_below, on_path, own_share, own_turn, DisplayManager,
    Position, Routed, Widget, WidgetModel, Window, WindowId, WindowTree,
};
use crate::error::Error;
use crate::font::{Font, FontView};
use crate::input::{Effect, Input, InputModel, Reaction};
use crate::lvm::Volume;
use crate::render::{draw_text, then_blit, then_text, Render, RenderModel};
use crate::provision::{FormatJob, FormatStage, Provision};
use crate::text::{decimal, decimal_spec, digit_char, digit_str};

verus! {

/// The file system a new drive starts with, named after where it is most at home.
#[derive(Clone, Copy, Debug, PartialEq, Eq, Structural)]
pub enum InitialDriveFormat {
    Windows,
    MacOs,
    Linux,
    Universal,
}

/// Where the format picker stands.
#[derive(Clone, Debug, PartialEq, Eq)]
pub enum DriveFormatState {
    /// The user moves the cursor.
    Selecting,
    /// The choice is made; the drive is being made.
    Formatting(Provision),
    /// The drive is made.
    Done,
}

/// The last step of the wizard: pick a format, then make the drive.
#[derive(Clone, Debug, PartialEq, Eq)]
pub struct DriveFormat {
    pub windowid: WindowId,
    /// Size of the drive to make, in bytes.
    pub size: u64,
    /// The format under the cursor.
    pub selected: InitialDriveFormat,
    pub state: DriveFormatState,
}

impl DriveFormat {
    /// A format picker as it is when it opens.
    pub open spec fn opened(windowid: WindowId, size: u64) -> DriveFormat {
        DriveFormat { windowid, size, selected: InitialDriveFormat::Windows, state: DriveFormatState::Selecting }
    }

    /// Opens a format picker for a drive of `size` bytes in a new window at
    /// the top-left corner of its parent. Fails, and changes nothing, if the
    /// manager has no window left.
    pub fn new(disp: &mut DisplayManager, size: u64) -> (result: Result<DriveFormat, Error>)
        requires
            old(disp).wf(),
        ensures
            final(disp).wf(),
            old(disp)@.has_room() ==> final(disp)@ == old(disp)@.add_child(Position::Fixed(0, 0)) && result
                == Ok::<DriveFormat, Error>(DriveFormat::opened(old(disp)@.next_id(), size)),
            !old(disp)@.has_room() ==> final(disp)@ == old(disp)@ && result == Err::<DriveFormat, Error>(
                Error::WindowsExhausted,
            ),
    {
        match disp.add_child(Position::Fixed(0, 0)) {
            Ok(windowid) => Ok(
                DriveFormat {
                    windowid,
                    size,
                    selected: InitialDriveFormat::Windows,
                    state: DriveFormatState::Selecting,
                },
            ),
            Err(e) => Err(e),
        }
    }

    /// The format below `format` in the list; the last one stays.
    pub open spec fn next_of(format: InitialDriveFormat) -> InitialDriveFormat {
        match format {
            InitialDriveFormat::Windows => InitialDriveFormat::MacOs,
            InitialDriveFormat::MacOs => InitialDriveFormat::Linux,
            InitialDriveFormat::Linux => InitialDriveFormat::Universal,
            InitialDriveFormat::Universal => InitialDriveFormat::Universal,
        }
    }

    /// The format above `format` in the list; the first one stays.
    pub open spec fn prev_of(format: InitialDriveFormat) -> InitialDriveFormat {
        match format {
            InitialDriveFormat::Windows => InitialDriveFormat::Windows,
            InitialDriveFormat::MacOs => InitialDriveFormat::Windows,
            InitialDriveFormat::Linux => InitialDriveFormat::MacOs,
            InitialDriveFormat::Universal => InitialDriveFormat::Linux,
        }
    }

    /// The format below the cursor; at the end of the list, the cursor's own.
    pub fn next_format(&self) -> (format: InitialDriveFormat)
        ensures
            format == DriveFormat::next_of(self.selected),
    {
        match self.selected {
            InitialDriveFormat::Windows => InitialDriveFormat::MacOs,
            InitialDriveFormat::MacOs => InitialDriveFormat::Linux,
            InitialDriveFormat::Linux => InitialDriveFormat::Universal,
            InitialDriveFormat::Universal => InitialDriveFormat::Universal,
        }
    }

    /// The format above the cursor; at the start of the list, the cursor's own.
    pub fn prev_format(&self) -> (format: InitialDriveFormat)
        ensures
            format == DriveFormat::prev_of(self.selected),
    {
        match self.selected {
            InitialDriveFormat::Windows => InitialDriveFormat::Windows,
            InitialDriveFormat::MacOs => InitialDriveFormat::Windows,
            InitialDriveFormat::Linux => InitialDriveFormat::MacOs,
            InitialDriveFormat::Universal => InitialDriveFormat::Linux,
        }
    }

    /// The formatting of `volume` with `format`, before its first step.
    pub open spec fn format_volume_spec(volume: Volume, format: InitialDriveFormat) -> FormatJob {
        FormatJob { volume_path: volume.path, format, stage: FormatStage::Partition, loop_output: None }
    }

    /// Starts the formatting of `volume` with `format`: the job that asks,
    /// step by step, for the partition table, the loopback device, and the
    /// file system.
    pub fn format_volume(volume: &Volume, format: &InitialDriveFormat) -> (job: FormatJob)
        ensures
            job == DriveFormat::format_volume_spec(*volume, *format),
    {
        FormatJob {
            volume_path: volume.path.clone(),
            format: *format,
            stage: FormatStage::Partition,
            loop_output: None,
        }
    }

    /// The row on which the entry for `format` is drawn.
    pub open spec fn row_of(format: InitialDriveFormat) -> nat {
        match format {
            InitialDriveFormat::Windows => 9,
            InitialDriveFormat::MacOs => 18,
            InitialDriveFormat::Linux => 27,
            InitialDriveFormat::Universal => 36,
        }
    }
}

impl View for DriveFormat {
    type V = DriveFormat;

    open spec fn view(&self) -> DriveFormat {
        *self
    }
}

impl RenderModel for DriveFormat {
    /// While a format is being picked: the list of formats with the arrow
    /// before the one under the cursor. Afterwards: a notice.
    open spec fn render_spec(&self, font: FontView, window: Window) -> Result<Grid, Error> {
        let base = Ok::<Grid, Error>(Grid::blank(128, 64));
        if !(self.state is Selecting) {
            then_text(base, font, "Formatting new drive"@, 0, 0)
        } else {
            let title = then_text(base, font, "Select Format:"@, 0, 0);
            let first = then_text(title, font, "Windows (NTFS)"@, 10, 9);
            let second = then_text(first, font, "MacOS (EXFAT)"@, 10, 18);
            let third = then_text(second, font, "Linux (EXT3)"@, 10, 27);
            let fourth = then_text(third, font, "Universal (FAT32)"@, 10, 36);
            then_blit(fourth, font.arrow, 2, DriveFormat::row_of(self.selected))
        }
    }
}

impl Render for DriveFormat {
    fn render(&self, font: &Font, _window: &Window) -> (result: Result<Bitmap, Error>) {
        let mut base = Bitmap::new(128, 64);
        match self.state {
            DriveFormatState::Selecting => {},
            _ => {
                draw_text(&mut base, font, "Formatting new drive", (0, 0))?;
                return Ok(base);
            },
        }
        draw_text(&mut base, font, "Select Format:", (0, 0))?;
        draw_text(&mut base, font, "Windows (NTFS)", (10, 9))?;
        draw_text(&mut base, font, "MacOS (EXFAT)", (10, 18))?;
        draw_text(&mut base, font, "Linux (EXT3)", (10, 27))?;
        draw_text(&mut base, font, "Universal (FAT32)", (10, 36))?;
        let row: usize = match self.selected {
            InitialDriveFormat::Windows => 9,
            InitialDriveFormat::MacOs => 18,
            InitialDriveFormat::Linux => 27,
            InitialDriveFormat::Universal => 36,
        };
        base.try_blit(font.arrow(), (2, row))?;
        Ok(base)
    }
}

impl InputModel for DriveFormat {
    /// Select asks for the drive to be made; Up and Down move the cursor,
    /// which stops at either end of the list.
    open spec fn event_spec(self, event: Event) -> Reaction<DriveFormat> {
        match event {
            Event::Select => Reaction { after: self, handled: true, actions: seq![Action::FormatDrive] },
            Event::Up => Reaction {
                after: DriveFormat { selected: DriveFormat::prev_of(self.selected), ..self },
                handled: true,
                actions: Seq::empty(),
            },
            Event::Down => Reaction {
                after: DriveFormat { selected: DriveFormat::next_of(self.selected), ..self },
                handled: true,
                actions: Seq::empty(),
            },
        }
    }

    /// `FormatDrive` is taken in two steps. While a format is being picked,
    /// it commits the choice and starts the making of the drive, and is not
    /// consumed, so that it comes again. After that it is consumed once the
    /// drive is made, and then closes the menu and hands the volume on;
    /// while the outside work is under way it stays pending, and if that
    /// work failed, the failure is returned. Once done, it is consumed
    /// without effect. Every other action is left alone.
    open spec fn action_spec(self, tree: WindowTree, action: Action) -> Effect<DriveFormat> {
        let ignored = Effect { after: self, tree, outcome: Ok((false, Seq::empty())) };
        match action {
            Action::FormatDrive => match self.state {
                DriveFormatState::Selecting => Effect {
                    after: DriveFormat { state: DriveFormatState::Formatting(Provision::Counting), ..self },
                    tree,
                    outcome: Ok((false, Seq::empty())),
                },
                DriveFormatState::Formatting(work) => match work.outcome_spec() {
                    Some(Ok(volume)) => Effect {
                        after: DriveFormat { state: DriveFormatState::Done, ..self },
                        tree,
                        outcome: Ok((true, seq![Action::CloseFormatMenu, Action::CreateDrive(volume)])),
                    },
                    Some(Err(error)) => Effect { after: self, tree, outcome: Err(error) },
                    None => ignored,
                },
                DriveFormatState::Done => Effect { after: self, tree, outcome: Ok((true, Seq::empty())) },
            },
            _ => ignored,
        }
    }

    proof fn lemma_action_settles(self, tree: WindowTree, action: Action) {
        reveal_with_fuel(queue_weight, 3);
    }
}

impl Input for DriveFormat {
    fn on_event(&mut self, event: &Event) -> (result: (bool, Vec<Action>)) {
        match event {
            Event::Select => {
                let actions = vec![Action::FormatDrive];
                assert(actions@ =~= seq![Action::FormatDrive]);
                (true, actions)
            },
            Event::Up => {
                self.selected = self.prev_format();
                (true, Vec::new())
            },
            Event::Down => {
                self.selected = self.next_format();
                (true, Vec::new())
            },
        }
    }

    fn do_action(&mut self, disp: &mut DisplayManager, action: &Action) -> (result: Result<
        (bool, Vec<Action>),
        Error,
    >) {
        match action {
            Action::FormatDrive => match &self.state {
                DriveFormatState::Selecting => {
                    self.state = DriveFormatState::Formatting(Provision::Counting);
                    Ok((false, Vec::new()))
                },
                DriveFormatState::Formatting(work) => {
                    match work.outcome() {
                        Some(Ok(made)) => {
                            self.state = DriveFormatState::Done;
                            let actions = vec![Action::CloseFormatMenu, Action::CreateDrive(made)];
                            Ok((true, actions))
                        },
                        Some(Err(e)) => Err(e),
                        None => Ok((false, Vec::new())),
                    }
                },
                DriveFormatState::Done => Ok((true, Vec::new())),
            },
            _ => Ok((false, Vec::new())),
        }
    }
}

impl WidgetModel for DriveFormat {
    open spec fn window(&self) -> WindowId {
        self.windowid
    }

    open spec fn child_windows(&self) -> Seq<WindowId> {
        Seq::empty()
    }

    open spec fn windows(&self) -> Seq<WindowId> {
        seq![self.windowid]
    }

    open spec fn dispatch_spec(self, path: Seq<WindowId>, event: Event) -> Routed<DriveFormat> {
        own_turn(self, self.windowid, path, event, Seq::empty())
    }

    proof fn lemma_dispatch(self, path: Seq<WindowId>, event: Event) {
        reveal_with_fuel(on_path, 2);
        let windows = seq![self.windowid];
        assert(windows.drop_last() =~= Seq::<WindowId>::empty());
        let chain = on_path(windows, path);
        let offered = self.dispatch_spec(path, event).offered;
        assert(offered =~= chain);
        assert(chain.take(chain.len() as int) =~= chain);
    }

    open spec fn distribute_spec(self, tree: WindowTree, action: Action) -> Effect<DriveFormat> {
        own_share(false, Seq::empty(), self.action_spec(tree, action))
    }

    proof fn lemma_distribute_settles(self, tree: WindowTree, action: Action) {
        self.lemma_action_settles(tree, action);
        let mine = self.action_spec(tree, action);
        match mine.outcome {
            Ok((took, more)) => {
                assert(Seq::<Action>::empty() + more =~= more);
            },
            Err(_) => {},
        }
    }

    open spec fn composite_spec(&self, tree: WindowTree, font: FontView) -> Result<Grid, Error> {
        tree.own_grid(self, self.windowid, font)
    }

    /// While the drive is being made: the step that its making waits for.
    open spec fn work_spec(&self) -> Option<RequestView> {
        match self.state {
            DriveFormatState::Formatting(work) => work.request_spec(self.size),
            _ => None,
        }
    }

    /// While the drive is being made, the reply concludes the pending step
    /// of its making; at any other time it is dropped.
    open spec fn resume_spec(self, reply: Reply) -> DriveFormat {
        match self.state {
            DriveFormatState::Formatting(work) => DriveFormat {
                state: DriveFormatState::Formatting(work.advance_spec(reply, self.selected)),
                ..self
            },
            _ => self,
        }
    }
}

impl Widget for DriveFormat {
    fn windowid(&self) -> (id: WindowId) {
        self.windowid
    }

    fn children(&self) -> (ids: Vec<WindowId>) {
        Vec::new()
    }

    fn dispatch(&mut self, disp: &DisplayManager, event: &Event) -> (result: (bool, Vec<Action>)) {
        disp.deliver(self.windowid, self, event)
    }

    fn distribute(&mut self, disp: &mut DisplayManager, action: &Action) -> (result: Result<
        (bool, Vec<Action>),
        Error,
    >) {
        disp.offer(self, action, false, Vec::new())
    }

    fn composite(&self, disp: &DisplayManager, font: &Font) -> (result: Result<Bitmap, Error>) {
        disp.draw(self, self.windowid, font)
    }

    fn work(&self) -> (request: Option<Request>) {
        match &self.state {
            DriveFormatState::Formatting(work) => work.request(self.size),
            _ => None,
        }
    }

    fn resume(&mut self, reply: Reply) {
        match &self.state {
            DriveFormatState::Formatting(work) => {
                let next = work.advanced(reply, self.selected);
                self.state = DriveFormatState::Formatting(next);
            },
            _ => {},
        }
    }
}

/// Where the size picker stands.
#[derive(Clone, Debug, PartialEq, Eq)]
pub enum DriveSizeState {
    /// The user adjusts the size.
    Unselected,
    /// The size is chosen; the format picker is open.
    Selected(DriveFormat),
}

/// The second step of the wizard: pick the size of the drive as a share of
/// the volume group.
#[derive(Clone, Debug, PartialEq, Eq)]
pub struct DriveSize {
    pub window: WindowId,
    /// The share of the volume group that the drive gets, in percent. The
    /// actions that change it move it in steps of five and stop at 0 and at
    /// 100: a step past either bound is no error, the value stays at the bound.
    pub current_percent: u32,
    /// Capacity of the volume group in bytes.
    pub vg_size: u64,
    pub state: DriveSizeState,
}

impl DriveSize {
    /// A size picker as it is when it opens.
    pub open spec fn opened(window: WindowId, vg_size: u64) -> DriveSize {
        DriveSize { window, current_percent: 50, vg_size, state: DriveSizeState::Unselected }
    }

    /// Opens a size picker for a volume group of `vg_size` bytes in a new
    /// window at the top-left corner of its parent, set to 50 percent.
    /// Fails, and changes nothing, if the manager has no window left.
    pub fn new(disp: &mut DisplayManager, vg_size: u64) -> (result: Result<DriveSize, Error>)
        requires
            old(disp).wf(),
        ensures
            final(disp).wf(),
            old(disp)@.has_room() ==> final(disp)@ == old(disp)@.add_child(Position::Fixed(0, 0)) && result
                == Ok::<DriveSize, Error>(DriveSize::opened(old(disp)@.next_id(), vg_size)),
            !old(disp)@.has_room() ==> final(disp)@ == old(disp)@ && result == Err::<DriveSize, Error>(
                Error::WindowsExhausted,
            ),
    {
        match disp.add_child(Position::Fixed(0, 0)) {
            Ok(window) => Ok(
                DriveSize { window, current_percent: 50, vg_size, state: DriveSizeState::Unselected },
            ),
            Err(e) => Err(e),
        }
    }

    /// The largest size that is a whole number of 512-byte sectors.
    pub open spec fn largest_size() -> u64 {
        0xffff_ffff_ffff_fe00u64
    }

    /// `percent` hundredths of `vg_size` bytes, rounded down to whole bytes
    /// and then up to whole sectors of 512 bytes, but no more than the
    /// largest size a drive can have.
    pub open spec fn size_of(vg_size: u64, percent: u32) -> u64 {
        let bytes = (vg_size as nat * percent as nat) / 100;
        let sectors = (bytes + 511) / 512;
        if sectors * 512 > DriveSize::largest_size() {
            DriveSize::largest_size()
        } else {
            (sectors * 512) as u64
        }
    }

    /// Size in bytes of the drive that the picker stands at.
    pub fn current_size(&self) -> (size: u64)
        ensures
            size == DriveSize::size_of(self.vg_size, self.current_percent),
    {
        let vg: u128 = self.vg_size as u128;
        let percent: u128 = self.current_percent as u128;
        assert(vg * percent <= 0xffff_ffff_ffff_ffff * 0xffff_ffff) by (nonlinear_arith)
            requires
                0 <= vg <= 0xffff_ffff_ffff_ffff,
                0 <= percent <= 0xffff_ffff,
        ;
        let bytes: u128 = vg * percent / 100;
        let sectors: u128 = (bytes + 511) / 512;
        let rounded: u128 = sectors * 512;
        if rounded > 0xffff_ffff_ffff_fe00u128 {
            0xffff_ffff_ffff_fe00u64
        } else {
            rounded as u64
        }
    }

    /// `size` bytes in hundredths of a gigabyte (2^30 bytes), rounded to the nearest.
    pub open spec fn hundredths(size: u64) -> nat {
        ((size as nat * 100 + 0x2000_0000) / 0x4000_0000) as nat
    }

    /// The line that states the choice: the percentage, and the size in
    /// gigabytes with two decimals.
    pub open spec fn label(percent: u32, size: u64) -> Seq<char> {
        let h = DriveSize::hundredths(size);
        decimal_spec(percent as nat) + "% ("@ + decimal_spec(h / 100) + "."@ + seq![
            digit_char((h / 10) % 10),
        ] + seq![digit_char(h % 10)] + "GB)"@
    }

    /// The line that states the choice.
    pub fn current_label(&self) -> (text: String)
        ensures
            text@ == DriveSize::label(self.current_percent, self.current_size_spec()),
    {
        let size = self.current_size();
        let h: u128 = (size as u128 * 100 + 0x2000_0000) / 0x4000_0000;
        let mut text = decimal(self.current_percent as u64);
        text.append("% (");
        let whole = decimal((h / 100) as u64);
        text.append(whole.as_str());
        text.append(".");
        text.append(digit_str(((h / 10) % 10) as u64));
        text.append(digit_str((h % 10) as u64));
        text.append("GB)");
        text
    }

    /// Size in bytes of the drive that the picker stands at.
    pub open spec fn current_size_spec(&self) -> u64 {
        DriveSize::size_of(self.vg_size, self.current_percent)
    }

    /// The percentage one step up: five more, but no more than 100.
    pub open spec fn raised(percent: u32) -> u32 {
        if percent >= 95 {
            100
        } else {
            (percent + 5) as u32
        }
    }

    /// The percentage one step down: five less, but no less than 0.
    pub open spec fn lowered(percent: u32) -> u32 {
        if percent >= 5 {
            (percent - 5) as u32
        } else {
            0
        }
    }

    /// The windows of the format picker and what it holds, if it is open.
    pub open spec fn below(&self) -> Seq<WindowId> {
        match self.state {
            DriveSizeState::Selected(menu) => menu.windows(),
            DriveSizeState::Unselected => Seq::empty(),
        }
    }
}

impl View for DriveSize {
    type V = DriveSize;

    open spec fn view(&self) -> DriveSize {
        *self
    }
}

impl RenderModel for DriveSize {
    /// A heading, and below it the line that states the choice.
    open spec fn render_spec(&self, font: FontView, window: Window) -> Result<Grid, Error> {
        let base = Ok::<Grid, Error>(Grid::blank(0, 0));
        let heading = then_text(base, font, "New drive capacity:"@, 0, 0);
        then_text(heading, font, DriveSize::label(self.current_percent, self.current_size_spec()), 10, 30)
    }
}

impl Render for DriveSize {
    fn render(&self, font: &Font, _window: &Window) -> (result: Result<Bitmap, Error>) {
        let mut base = Bitmap::new(0, 0);
        draw_text(&mut base, font, "New drive capacity:", (0, 0))?;
        let label = self.current_label();
        draw_text(&mut base, font, label.as_str(), (10, 30))?;
        Ok(base)
    }
}

impl InputModel for DriveSize {
    /// Every button asks for something: Select for the format picker, Up
    /// for a larger drive, Down for a smaller one.
    open spec fn event_spec(self, event: Event) -> Reaction<DriveSize> {
        match event {
            Event::Select => Reaction { after: self, handled: true, actions: seq![Action::OpenFormatMenu] },
            Event::Up => Reaction { after: self, handled: true, actions: seq![Action::IncDriveSize] },
            Event::Down => Reaction { after: self, handled: true, actions: seq![Action::DecDriveSize] },
        }
    }

    /// The size moves in steps of five percent and stays between 0 and 100.
    /// `OpenFormatMenu` opens a format picker for the size chosen, in a new
    /// window under this one, and gives it the focus; it fails if this
    /// widget's window is unknown or no window is left. `CloseFormatMenu`
    /// drops the format picker. Every other action is left alone.
    open spec fn action_spec(self, tree: WindowTree, action: Action) -> Effect<DriveSize> {
        let consumed = Ok::<(bool, Seq<Action>), Error>((true, Seq::empty()));
        match action {
            Action::IncDriveSize => Effect {
                after: DriveSize { current_percent: DriveSize::raised(self.current_percent), ..self },
                tree,
                outcome: consumed,
            },
            Action::DecDriveSize => Effect {
                after: DriveSize { current_percent: DriveSize::lowered(self.current_percent), ..self },
                tree,
                outcome: consumed,
            },
            Action::OpenFormatMenu => if !tree.valid(self.window) {
                Effect { after: self, tree, outcome: Err(Error::InvalidWindow) }
            } else if !tree.has_room() {
                Effect { after: self, tree: tree.enter(self.window), outcome: Err(Error::WindowsExhausted) }
            } else {
                Effect {
                    after: DriveSize {
                        state: DriveSizeState::Selected(
                            DriveFormat::opened(tree.next_id(), self.current_size_spec()),
                        ),
                        ..self
                    },
                    tree: tree.enter(self.window).add_child(Position::Fixed(0, 0)).shift_focus(tree.next_id()),
                    outcome: consumed,
                }
            },
            Action::CloseFormatMenu => Effect {
                after: DriveSize { state: DriveSizeState::Unselected, ..self },
                tree,
                outcome: consumed,
            },
            _ => Effect { after: self, tree, outcome: Ok((false, Seq::empty())) },
        }
    }

    proof fn lemma_action_settles(self, tree: WindowTree, action: Action) {
        assert(queue_weight(Seq::<Action>::empty()) == 0);
    }
}

impl Input for DriveSize {
    fn on_event(&mut self, event: &Event) -> (result: (bool, Vec<Action>)) {
        let actions = match event {
            Event::Select => vec![Action::OpenFormatMenu],
            Event::Up => vec![Action::IncDriveSize],
            Event::Down => vec![Action::DecDriveSize],
        };
        assert(actions@ =~= (*old(self)).event_spec(*event).actions);
        (true, actions)
    }

    fn do_action(&mut self, disp: &mut DisplayManager, action: &Action) -> (result: Result<
        (bool, Vec<Action>),
        Error,
    >) {
        match action {
            Action::IncDriveSize => {
                self.current_percent = if self.current_percent >= 95 {
                    100
                } else {
                    self.current_percent + 5
                };
                Ok((true, Vec::new()))
            },
            Action::DecDriveSize => {
                self.current_percent = if self.current_percent >= 5 {
                    self.current_percent - 5
                } else {
                    0
                };
                Ok((true, Vec::new()))
            },
            Action::OpenFormatMenu => {
                disp.enter(self.window)?;
                let menu = DriveFormat::new(disp, self.current_size())?;
                disp.shift_focus(menu.windowid)?;
                self.state = DriveSizeState::Selected(menu);
                Ok((true, Vec::new()))
            },
            Action::CloseFormatMenu => {
                self.state = DriveSizeState::Unselected;
                Ok((true, Vec::new()))
            },
            _ => Ok((false, Vec::new())),
        }
    }
}

impl WidgetModel for DriveSize {
    open spec fn window(&self) -> WindowId {
        self.window
    }

    /// The format picker, while it is open.
    open spec fn child_windows(&self) -> Seq<WindowId> {
        match self.state {
            DriveSizeState::Selected(menu) => seq![menu.windowid],
            DriveSizeState::Unselected => Seq::empty(),
        }
    }

    open spec fn windows(&self) -> Seq<WindowId> {
        self.below().push(self.window)
    }

    open spec fn dispatch_spec(self, path: Seq<WindowId>, event: Event) -> Routed<DriveSize> {
        match self.state {
            DriveSizeState::Selected(menu) => {
                let below = menu.dispatch_spec(path, event);
                let held = DriveSize { state: DriveSizeState::Selected(below.after), ..self };
                if below.handled {
                    Routed { after: held, handled: true, actions: below.actions, offered: below.offered }
                } else {
                    own_turn(held, self.window, path, event, below.offered)
                }
            },
            DriveSizeState::Unselected => own_turn(self, self.window, path, event, Seq::empty()),
        }
    }

    proof fn lemma_dispatch(self, path: Seq<WindowId>, event: Event) {
        match self.state {
            DriveSizeState::Selected(menu) => {
                menu.lemma_dispatch(path, event);
                let below = menu.dispatch_spec(path, event);
                let held = DriveSize { state: DriveSizeState::Selected(below.after), ..self };
                if below.handled {
                    lemma_taken_below(self.window, path, menu.windows(), below.actions, below.offered);
                } else {
                    lemma_own_turn(held, self.window, path, event, menu.windows(), below.actions, below.offered);
                }
            },
            DriveSizeState::Unselected => {
                assert(on_path(Seq::<WindowId>::empty(), path) =~= Seq::<WindowId>::empty());
                assert(Seq::<WindowId>::empty().take(0) =~= Seq::<WindowId>::empty());
                lemma_own_turn(
                    self,
                    self.window,
                    path,
                    event,
                    Seq::<WindowId>::empty(),
                    Seq::<Action>::empty(),
                    Seq::<WindowId>::empty(),
                );
            },
        }
    }

    open spec fn distribute_spec(self, tree: WindowTree, action: Action) -> Effect<DriveSize> {
        match self.state {
            DriveSizeState::Selected(menu) => {
                let below = menu.distribute_spec(tree, action);
                let held = DriveSize { state: DriveSizeState::Selected(below.after), ..self };
                match below.outcome {
                    Ok((handled, actions)) => own_share(handled, actions, held.action_spec(below.tree, action)),
                    Err(e) => Effect { after: held, tree: below.tree, outcome: Err(e) },
                }
            },
            DriveSizeState::Unselected => own_share(false, Seq::empty(), self.action_spec(tree, action)),
        }
    }

    proof fn lemma_distribute_settles(self, tree: WindowTree, action: Action) {
        match self.state {
            DriveSizeState::Selected(menu) => {
                menu.lemma_distribute_settles(tree, action);
                let below = menu.distribute_spec(tree, action);
                let held = DriveSize { state: DriveSizeState::Selected(below.after), ..self };
                match below.outcome {
                    Ok((handled, actions)) => {
                        lemma_own_share_settles(action, handled, actions, held.action_spec(below.tree, action));
                    },
                    Err(_) => {},
                }
            },
            DriveSizeState::Unselected => {
                lemma_own_share_settles(action, false, Seq::empty(), self.action_spec(tree, action));
            },
        }
    }

    open spec fn composite_spec(&self, tree: WindowTree, font: FontView) -> Result<Grid, Error> {
        let base = tree.own_grid(self, self.window, font);
        match self.state {
            DriveSizeState::Selected(menu) => tree.then_stack(base, menu.composite_spec(tree, font), menu.windowid),
            DriveSizeState::Unselected => base,
        }
    }

    open spec fn work_spec(&self) -> Option<RequestView> {
        match self.state {
            DriveSizeState::Selected(menu) => menu.work_spec(),
            DriveSizeState::Unselected => None,
        }
    }

    open spec fn resume_spec(self, reply: Reply) -> DriveSize {
        match self.state {
            DriveSizeState::Selected(menu) => DriveSize {
                state: DriveSizeState::Selected(menu.resume_spec(reply)),
                ..self
            },
            DriveSizeState::Unselected => self,
        }
    }
}

impl Widget for DriveSize {
    fn windowid(&self) -> (id: WindowId) {
        self.window
    }

    fn children(&self) -> (ids: Vec<WindowId>) {
        match &self.state {
            DriveSizeState::Selected(menu) => {
                let ids = vec![menu.windowid];
                assert(ids@ =~= seq![menu.windowid]);
                ids
            },
            DriveSizeState::Unselected => Vec::new(),
        }
    }

    fn dispatch(&mut self, disp: &DisplayManager, event: &Event) -> (result: (bool, Vec<Action>)) {
        match &mut self.state {
            DriveSizeState::Selected(menu) => {
                let below = menu.dispatch(disp, event);
                if below.0 {
                    return below;
                }
            },
            DriveSizeState::Unselected => {},
        }
        disp.deliver(self.window, self, event)
    }

    fn distribute(&mut self, disp: &mut DisplayManager, action: &Action) -> (result: Result<
        (bool, Vec<Action>),
        Error,
    >) {
        let below = match &mut self.state {
            DriveSizeState::Selected(menu) => menu.distribute(disp, action),
            DriveSizeState::Unselected => Ok((false, Vec::new())),
        };
        match below {
            Ok((handled, actions)) => disp.offer(self, action, handled, actions),
            Err(e) => Err(e),
        }
    }

    fn composite(&self, disp: &DisplayManager, font: &Font) -> (result: Result<Bitmap, Error>) {
        let mut base = disp.draw(self, self.window, font)?;
        match &self.state {
            DriveSizeState::Selected(menu) => {
                let inset = menu.composite(disp, font)?;
                disp.stack(&mut base, &inset, menu.windowid)?;
            },
            DriveSizeState::Unselected => {},
        }
        Ok(base)
    }

    fn work(&self) -> (request: Option<Request>) {
        match &self.state {
            DriveSizeState::Selected(menu) => menu.work(),
            DriveSizeState::Unselected => None,
        }
    }

    fn resume(&mut self, reply: Reply) {
        match &mut self.state {
            DriveSizeState::Selected(menu) => menu.resume(reply),
            DriveSizeState::Unselected => {},
        }
    }
}

/// Where the wizard stands.
#[derive(Clone, Debug, PartialEq, Eq)]
pub enum NewDriveState {
    /// The menu entry alone.
    Unselected,
    /// The size picker is open.
    PickingSize(DriveSize),
}

/// The menu entry that starts the wizard for a new drive.
#[derive(Clone, Debug, PartialEq, Eq)]
pub struct NewDrive {
    pub window: WindowId,
    /// Capacity of the volume group in bytes.
    pub vg_size: u64,
    pub state: NewDriveState,
}

impl NewDrive {
    /// The menu entry as it is when it is made.
    pub open spec fn made(window: WindowId, vg_size: u64) -> NewDrive {
        NewDrive { window, vg_size, state: NewDriveState::Unselected }
    }

    /// Makes the menu entry, for a volume group of `vg_size` bytes, in a new
    /// window that is stacked into its parent. Fails, and changes nothing,
    /// if the manager has no window left.
    pub fn new(disp: &mut DisplayManager, vg_size: u64) -> (result: Result<NewDrive, Error>)
        requires
            old(disp).wf(),
        ensures
            final(disp).wf(),
            old(disp)@.has_room() ==> final(disp)@ == old(disp)@.add_child(Position::Normal) && result == Ok::<
                NewDrive,
                Error,
            >(NewDrive::made(old(disp)@.next_id(), vg_size)),
            !old(disp)@.has_room() ==> final(disp)@ == old(disp)@ && result == Err::<NewDrive, Error>(
                Error::WindowsExhausted,
            ),
    {
        match disp.add_child(Position::Normal) {
            Ok(window) => Ok(NewDrive { window, vg_size, state: NewDriveState::Unselected }),
            Err(e) => Err(e),
        }
    }

    /// The windows of the size picker and what it holds, if it is open.
    pub open spec fn below(&self) -> Seq<WindowId> {
        match self.state {
            NewDriveState::PickingSize(menu) => menu.windows(),
            NewDriveState::Unselected => Seq::empty(),
        }
    }

    /// The entry without the arrow: its name under a line, moved right to
    /// leave room for the arrow.
    pub open spec fn entry(font: FontView) -> Result<Grid, Error> {
        match font.try_text("New Drive"@) {
            Ok(label) => match label.try_with_border(BorderStyle::Top, 2) {
                Ok(framed) => Grid::blank(10, 1).try_blit(framed, 12, 0),
                Err(e) => Err(e),
            },
            Err(e) => Err(e),
        }
    }
}

impl View for NewDrive {
    type V = NewDrive;

    open spec fn view(&self) -> NewDrive {
        *self
    }
}

impl RenderModel for NewDrive {
    /// The entry, with the arrow before it while its window has the focus.
    open spec fn render_spec(&self, font: FontView, window: Window) -> Result<Grid, Error> {
        if window.focus {
            then_blit(NewDrive::entry(font), font.arrow, 0, 0)
        } else {
            NewDrive::entry(font)
        }
    }
}

impl Render for NewDrive {
    fn render(&self, font: &Font, window: &Window) -> (result: Result<Bitmap, Error>) {
        let mut base = Bitmap::new(10, 1);
        let label = font.render_text("New Drive")?;
        let framed = with_border(label, BorderStyle::Top, 2)?;
        base.try_blit(&framed, (12, 0))?;
        if window.focus {
            base.try_blit(font.arrow(), (0, 0))?;
        }
        Ok(base)
    }
}

impl InputModel for NewDrive {
    /// Select asks for the size picker; the other buttons are not for this entry.
    open spec fn event_spec(self, event: Event) -> Reaction<NewDrive> {
        match event {
            Event::Select => Reaction { after: self, handled: true, actions: seq![Action::OpenSizeMenu] },
            _ => Reaction { after: self, handled: false, actions: Seq::empty() },
        }
    }

    /// `OpenSizeMenu` opens a size picker in a new window under this one and
    /// gives it the focus; it fails if this widget's window is unknown or no
    /// window is left. `CloseFormatMenu` takes the focus back and drops the
    /// size picker with everything in it; it fails, and changes nothing, if
    /// this widget's window is unknown. Every other action is left alone.
    open spec fn action_spec(self, tree: WindowTree, action: Action) -> Effect<NewDrive> {
        let consumed = Ok::<(bool, Seq<Action>), Error>((true, Seq::empty()));
        match action {
            Action::OpenSizeMenu => if !tree.valid(self.window) {
                Effect { after: self, tree, outcome: Err(Error::InvalidWindow) }
            } else if !tree.has_room() {
                Effect { after: self, tree: tree.enter(self.window), outcome: Err(Error::WindowsExhausted) }
            } else {
                Effect {
                    after: NewDrive {
                        state: NewDriveState::PickingSize(DriveSize::opened(tree.next_id(), self.vg_size)),
                        ..self
                    },
                    tree: tree.enter(self.window).add_child(Position::Fixed(0, 0)).shift_focus(tree.next_id()),
                    outcome: consumed,
                }
            },
            Action::CloseFormatMenu => if !tree.valid(self.window) {
                Effect { after: self, tree, outcome: Err(Error::InvalidWindow) }
            } else {
                Effect {
                    after: NewDrive { state: NewDriveState::Unselected, ..self },
                    tree: tree.shift_focus(self.window),
                    outcome: consumed,
                }
            },
            _ => Effect { after: self, tree, outcome: Ok((false, Seq::empty())) },
        }
    }

    proof fn lemma_action_settles(self, tree: WindowTree, action: Action) {
        assert(queue_weight(Seq::<Action>::empty()) == 0);
    }
}

impl Input for NewDrive {
    fn on_event(&mut self, event: &Event) -> (result: (bool, Vec<Action>)) {
        match event {
            Event::Select => {
                let actions = vec![Action::OpenSizeMenu];
                assert(actions@ =~= seq![Action::OpenSizeMenu]);
                (true, actions)
            },
            _ => (false, Vec::new()),
        }
    }

    fn do_action(&mut self, disp: &mut DisplayManager, action: &Action) -> (result: Result<
        (bool, Vec<Action>),
        Error,
    >) {
        match action {
            Action::OpenSizeMenu => {
                disp.enter(self.window)?;
                let menu = DriveSize::new(disp, self.vg_size)?;
                disp.shift_focus(menu.window)?;
                self.state = NewDriveState::PickingSize(menu);
                Ok((true, Vec::new()))
            },
            Action::CloseFormatMenu => {
                disp.shift_focus(self.window)?;
                self.state = NewDriveState::Unselected;
                Ok((true, Vec::new()))
            },
            _ => Ok((false, Vec::new())),
        }
    }
}

impl WidgetModel for NewDrive {
    open spec fn window(&self) -> WindowId {
        self.window
    }

    /// The size picker, while it is open.
    open spec fn child_windows(&self) -> Seq<WindowId> {
        match self.state {
            NewDriveState::PickingSize(menu) => seq![menu.window],
            NewDriveState::Unselected => Seq::empty(),
        }
    }

    open spec fn windows(&self) -> Seq<WindowId> {
        self.below().push(self.window)
    }

    open spec fn dispatch_spec(self, path: Seq<WindowId>, event: Event) -> Routed<NewDrive> {
        match self.state {
            NewDriveState::PickingSize(menu) => {
                let below = menu.dispatch_spec(path, event);
                let held = NewDrive { state: NewDriveState::PickingSize(below.after), ..self };
                if below.handled {
                    Routed { after: held, handled: true, actions: below.actions, offered: below.offered }
                } else {
                    own_turn(held, self.window, path, event, below.offered)
                }
            },
            NewDriveState::Unselected => own_turn(self, self.window, path, event, Seq::empty()),
        }
    }

    proof fn lemma_dispatch(self, path: Seq<WindowId>, event: Event) {
        match self.state {
            NewDriveState::PickingSize(menu) => {
                menu.lemma_dispatch(path, event);
                let below = menu.dispatch_spec(path, event);
                let held = NewDrive { state: NewDriveState::PickingSize(below.after), ..self };
                if below.handled {
                    lemma_taken_below(self.window, path, menu.windows(), below.actions, below.offered);
                } else {
                    lemma_own_turn(held, self.window, path, event, menu.windows(), below.actions, below.offered);
                }
            },
            NewDriveState::Unselected => {
                assert(on_path(Seq::<WindowId>::empty(), path) =~= Seq::<WindowId>::empty());
                assert(Seq::<WindowId>::empty().take(0) =~= Seq::<WindowId>::empty());
                lemma_own_turn(
                    self,
                    self.window,
                    path,
                    event,
                    Seq::<WindowId>::empty(),
                    Seq::<Action>::empty(),
                    Seq::<WindowId>::empty(),
                );
            },
        }
    }

    open spec fn distribute_spec(self, tree: WindowTree, action: Action) -> Effect<NewDrive> {
        match self.state {
            NewDriveState::PickingSize(menu) => {
                let below = menu.distribute_spec(tree, action);
                let held = NewDrive { state: NewDriveState::PickingSize(below.after), ..self };
                match below.outcome {
                    Ok((handled, actions)) => own_share(handled, actions, held.action_spec(below.tree, action)),
                    Err(e) => Effect { after: held, tree: below.tree, outcome: Err(e) },
                }
            },
            NewDriveState::Unselected => own_share(false, Seq::empty(), self.action_spec(tree, action)),
        }
    }

    proof fn lemma_distribute_settles(self, tree: WindowTree, action: Action) {
        match self.state {
            NewDriveState::PickingSize(menu) => {
                menu.lemma_distribute_settles(tree, action);
                let below = menu.distribute_spec(tree, action);
                let held = NewDrive { state: NewDriveState::PickingSize(below.after), ..self };
                match below.outcome {
                    Ok((handled, actions)) => {
                        lemma_own_share_settles(action, handled, actions, held.action_spec(below.tree, action));
                    },
                    Err(_) => {},
                }
            },
            NewDriveState::Unselected => {
                lemma_own_share_settles(action, false, Seq::empty(), self.action_spec(tree, action));
            },
        }
    }

    open spec fn composite_spec(&self, tree: WindowTree, font: FontView) -> Result<Grid, Error> {
        let base = tree.own_grid(self, self.window, font);
        match self.state {
            NewDriveState::PickingSize(menu) => tree.then_stack(base, menu.composite_spec(tree, font), menu.window),
            NewDriveState::Unselected => base,
        }
    }

    open spec fn work_spec(&self) -> Option<RequestView> {
        match self.state {
            NewDriveState::PickingSize(menu) => menu.work_spec(),
            NewDriveState::Unselected => None,
        }
    }

    open spec fn resume_spec(self, reply: Reply) -> NewDrive {
        match self.state {
            NewDriveState::PickingSize(menu) => NewDrive {
                state: NewDriveState::PickingSize(menu.resume_spec(reply)),
                ..self
            },
            NewDriveState::Unselected => self,
        }
    }
}

impl Widget for NewDrive {
    fn windowid(&self) -> (id: WindowId) {
        self.window
    }

    fn children(&self) -> (ids: Vec<WindowId>) {
        match &self.state {
            NewDriveState::PickingSize(menu) => {
                let ids = vec![menu.window];
                assert(ids@ =~= seq![menu.window]);
                ids
            },
            NewDriveState::Unselected => Vec::new(),
        }
    }

    fn dispatch(&mut self, disp: &DisplayManager, event: &Event) -> (result: (bool, Vec<Action>)) {
        match &mut self.state {
            NewDriveState::PickingSize(menu) => {
                let below = menu.dispatch(disp, event);
                if below.0 {
                    return below;
                }
            },
            NewDriveState::Unselected => {},
        }
        disp.deliver(self.window, self, event)
    }

    fn distribute(&mut self, disp: &mut DisplayManager, action: &Action) -> (result: Result<
        (bool, Vec<Action>),
        Error,
    >) {
        let below = match &mut self.state {
            NewDriveState::PickingSize(menu) => menu.distribute(disp, action),
            NewDriveState::Unselected => Ok((false, Vec::new())),
        };
        match below {
            Ok((handled, actions)) => disp.offer(self, action, handled, actions),
            Err(e) => Err(e),
        }
    }

    fn composite(&self, disp: &DisplayManager, font: &Font) -> (result: Result<Bitmap, Error>) {
        let mut base = disp.draw(self, self.window, font)?;
        match &self.state {
            NewDriveState::PickingSize(menu) => {
                let inset = menu.composite(disp, font)?;
                disp.stack(&mut base, &inset, menu.window)?;
            },
            NewDriveState::Unselected => {},
        }
        Ok(base)
    }

    fn work(&self) -> (request: Option<Request>) {
        match &self.state {
            NewDriveState::PickingSize(menu) => menu.work(),
            NewDriveState::Unselected => None,
        }
    }

    fn resume(&mut self, reply: Reply) {
        match &mut self.state {
            NewDriveState::PickingSize(menu) => menu.resume(reply),
            NewDriveState::Unselected => {},
        }
    }
}

} // verus!
