use piso::action::Action;
use piso::backend::{Reply, Request};
use piso::bitmap::Bitmap;
use piso::controller::Event;
use piso::displaymanager::{DisplayManager, Position, Widget, Window, WindowId};
use piso::error::Error;
use piso::font::Font;
use piso::input::Input;
use piso::lvm::{Volume, VolumeGroup};
use piso::newdrive::{
    DriveFormat, DriveFormatState, DriveSize, DriveSizeState, InitialDriveFormat, NewDrive, NewDriveState,
};
use piso::provision::Provision;
use piso::piso::PIso;
use piso::render::Render;
use piso::vdrive::VirtualDrive;

const GIB: u64 = 1 << 30;

fn code_font() -> Font {
    let mut glyphs = Vec::new();
    for code in 0u8..128 {
        glyphs.push(Bitmap::from_slice(&[&[code]]));
    }
    Font::new(1, 1, glyphs, Bitmap::from_slice(&[&[200]])).unwrap()
}

fn codes(text: &str) -> Vec<u8> {
    text.bytes().collect()
}

fn row(bitmap: &Bitmap, y: usize, from: usize, len: usize) -> Vec<u8> {
    (from..from + len).map(|x| bitmap.pixel(x, y)).collect()
}

fn perform(request: Request) -> Reply {
    match request {
        Request::CountVolumes => Reply::VolumeCount(2),
        Request::CreateVolume { name, size } => {
            let path = format!("/dev/VolGroup00/{}", name);
            Reply::VolumeCreated(Volume { name, path, size })
        }
        Request::Run { program, args } => {
            if program == "losetup" && args == vec!["-f".to_string()] {
                Reply::Output("/dev/loop0\n".to_string())
            } else {
                Reply::Output(String::new())
            }
        }
        Request::WaitForPath { .. } => Reply::PathReady,
    }
}

fn finish_work<W: Widget>(widget: &mut W) -> usize
where
    W::V: piso::displaymanager::WidgetModel,
{
    let mut steps = 0;
    while let Some(request) = widget.work() {
        widget.resume(perform(request));
        steps += 1;
        assert!(steps < 100);
    }
    steps
}

fn press<W: Widget>(manager: &mut DisplayManager, root: &mut W, event: Event) -> usize
where
    W::V: piso::displaymanager::WidgetModel,
{
    let mut actions = manager.on_event(root, &event).unwrap();
    let mut passes = 0;
    loop {
        manager.do_actions(root, &mut actions).unwrap();
        passes += 1;
        finish_work(root);
        if actions.is_empty() {
            break;
        }
        assert!(passes < 10);
    }
    passes
}

fn size_menu(newdrive: &NewDrive) -> &DriveSize {
    match &newdrive.state {
        NewDriveState::PickingSize(menu) => menu,
        NewDriveState::Unselected => panic!("the size picker is not open"),
    }
}

fn format_menu(newdrive: &NewDrive) -> &DriveFormat {
    match &size_menu(newdrive).state {
        DriveSizeState::Selected(menu) => menu,
        DriveSizeState::Unselected => panic!("the format picker is not open"),
    }
}

fn created_volume() -> Volume {
    Volume { name: "Drive2".to_string(), path: "/dev/VolGroup00/Drive2".to_string(), size: GIB }
}

#[test]
fn new_drive_select_opens_the_size_menu() {
    let mut manager = DisplayManager::new();
    let mut newdrive = NewDrive::new(&mut manager, 2 * GIB).unwrap();
    assert_eq!(manager.get(newdrive.window).unwrap().parent, manager.root());
    assert!(!manager.get(newdrive.window).unwrap().focus);
    assert_eq!(newdrive.children(), Vec::<WindowId>::new());

    let (handled, mut actions) = newdrive.on_event(&Event::Select);
    assert!(handled);
    assert_eq!(actions, vec![Action::OpenSizeMenu]);

    manager.do_actions(&mut newdrive, &mut actions).unwrap();
    assert!(actions.is_empty());
    let menu = size_menu(&newdrive);
    assert_eq!(menu.current_percent, 50);
    assert_eq!(menu.vg_size, 2 * GIB);
    assert_eq!(manager.focused(), menu.window);
    assert!(manager.get(menu.window).unwrap().focus);
    assert_eq!(
        manager.get(menu.window),
        Some(Window { position: Position::Fixed(0, 0), focus: true, parent: newdrive.window })
    );
    assert_eq!(newdrive.children(), vec![menu.window]);
}

#[test]
fn new_drive_ignores_up_and_down() {
    let mut manager = DisplayManager::new();
    let mut newdrive = NewDrive::new(&mut manager, GIB).unwrap();
    assert_eq!(newdrive.on_event(&Event::Up), (false, vec![]));
    assert_eq!(newdrive.on_event(&Event::Down), (false, vec![]));
    assert_eq!(newdrive.state, NewDriveState::Unselected);
}

#[test]
fn drive_size_moves_in_steps_of_five() {
    let mut manager = DisplayManager::new();
    let mut newdrive = NewDrive::new(&mut manager, 2 * GIB).unwrap();
    manager.shift_focus(newdrive.window).unwrap();
    press(&mut manager, &mut newdrive, Event::Select);
    assert_eq!(size_menu(&newdrive).current_percent, 50);
    for _ in 0..5 {
        press(&mut manager, &mut newdrive, Event::Up);
    }
    assert_eq!(size_menu(&newdrive).current_percent, 75);
    for _ in 0..15 {
        press(&mut manager, &mut newdrive, Event::Down);
    }
    assert_eq!(size_menu(&newdrive).current_percent, 0);
}

#[test]
fn drive_size_stops_at_zero_and_at_hundred() {
    let mut manager = DisplayManager::new();
    let mut menu = DriveSize::new(&mut manager, GIB).unwrap();
    menu.current_percent = 0;
    assert_eq!(menu.do_action(&mut manager, &Action::DecDriveSize), Ok((true, vec![])));
    assert_eq!(menu.current_percent, 0);
    menu.current_percent = 3;
    menu.do_action(&mut manager, &Action::DecDriveSize).unwrap();
    assert_eq!(menu.current_percent, 0);
    menu.current_percent = 95;
    assert_eq!(menu.do_action(&mut manager, &Action::IncDriveSize), Ok((true, vec![])));
    assert_eq!(menu.current_percent, 100);
    menu.do_action(&mut manager, &Action::IncDriveSize).unwrap();
    assert_eq!(menu.current_percent, 100);
    menu.current_percent = 98;
    menu.do_action(&mut manager, &Action::IncDriveSize).unwrap();
    assert_eq!(menu.current_percent, 100);
}

#[test]
fn drive_size_events_ask_for_actions() {
    let mut manager = DisplayManager::new();
    let mut menu = DriveSize::new(&mut manager, GIB).unwrap();
    assert_eq!(menu.on_event(&Event::Select), (true, vec![Action::OpenFormatMenu]));
    assert_eq!(menu.on_event(&Event::Up), (true, vec![Action::IncDriveSize]));
    assert_eq!(menu.on_event(&Event::Down), (true, vec![Action::DecDriveSize]));
    assert_eq!(menu.current_percent, 50);
}

#[test]
fn current_size_is_rounded_up_to_sectors() {
    let mut manager = DisplayManager::new();
    let mut menu = DriveSize::new(&mut manager, 1000).unwrap();
    assert_eq!(menu.current_size(), 512);
    menu.vg_size = 0;
    assert_eq!(menu.current_size(), 0);
    menu.vg_size = 1024;
    menu.current_percent = 100;
    assert_eq!(menu.current_size(), 1024);
    menu.vg_size = 1025;
    assert_eq!(menu.current_size(), 1536);
    menu.vg_size = 10_000_000_000;
    menu.current_percent = 75;
    assert_eq!(menu.current_size(), 7_500_000_256);
    menu.vg_size = u64::MAX;
    menu.current_percent = 100;
    assert_eq!(menu.current_size(), 18446744073709551104);
    menu.current_percent = 0;
    assert_eq!(menu.current_size(), 0);
}

#[test]
fn current_label_states_percent_and_gigabytes() {
    let mut manager = DisplayManager::new();
    let mut menu = DriveSize::new(&mut manager, 2 * GIB).unwrap();
    assert_eq!(menu.current_label(), "50% (1.00GB)");
    menu.vg_size = 10_000_000_000;
    menu.current_percent = 75;
    assert_eq!(menu.current_label(), "75% (6.98GB)");
    menu.vg_size = 32_000_000_000;
    menu.current_percent = 5;
    assert_eq!(menu.current_label(), "5% (1.49GB)");
    menu.vg_size = u64::MAX;
    menu.current_percent = 100;
    assert_eq!(menu.current_label(), "100% (17179869184.00GB)");
    menu.vg_size = 1000;
    menu.current_percent = 50;
    assert_eq!(menu.current_label(), "50% (0.00GB)");
}

#[test]
fn drive_format_cursor_stops_at_the_first_entry() {
    let mut manager = DisplayManager::new();
    let mut menu = DriveFormat::new(&mut manager, GIB).unwrap();
    assert_eq!(menu.state, DriveFormatState::Selecting);
    assert_eq!(menu.selected, InitialDriveFormat::Windows);
    menu.on_event(&Event::Down);
    menu.on_event(&Event::Down);
    assert_eq!(menu.selected, InitialDriveFormat::Linux);
    assert_eq!(menu.on_event(&Event::Up), (true, vec![]));
    assert_eq!(menu.selected, InitialDriveFormat::MacOs);
    assert_eq!(menu.on_event(&Event::Up), (true, vec![]));
    assert_eq!(menu.selected, InitialDriveFormat::Windows);
    assert_eq!(menu.on_event(&Event::Up), (true, vec![]));
    assert_eq!(menu.selected, InitialDriveFormat::Windows);
}

#[test]
fn drive_format_cursor_stops_at_the_last_entry() {
    let mut manager = DisplayManager::new();
    let mut menu = DriveFormat::new(&mut manager, GIB).unwrap();
    let mut seen = vec![menu.selected];
    for _ in 0..5 {
        assert_eq!(menu.on_event(&Event::Down), (true, vec![]));
        seen.push(menu.selected);
    }
    assert_eq!(
        seen,
        vec![
            InitialDriveFormat::Windows,
            InitialDriveFormat::MacOs,
            InitialDriveFormat::Linux,
            InitialDriveFormat::Universal,
            InitialDriveFormat::Universal,
            InitialDriveFormat::Universal,
        ]
    );
}

#[test]
fn next_and_prev_format_do_not_move_the_cursor() {
    let mut manager = DisplayManager::new();
    let mut menu = DriveFormat::new(&mut manager, GIB).unwrap();
    menu.selected = InitialDriveFormat::MacOs;
    assert_eq!(menu.next_format(), InitialDriveFormat::Linux);
    assert_eq!(menu.prev_format(), InitialDriveFormat::Windows);
    assert_eq!(menu.selected, InitialDriveFormat::MacOs);
}

#[test]
fn format_drive_is_consumed_in_two_steps() {
    let mut manager = DisplayManager::new();
    let mut menu = DriveFormat::new(&mut manager, GIB).unwrap();
    menu.on_event(&Event::Down);
    assert_eq!(menu.on_event(&Event::Select), (true, vec![Action::FormatDrive]));
    assert_eq!(menu.work(), None);

    assert_eq!(menu.do_action(&mut manager, &Action::FormatDrive), Ok((false, vec![])));
    assert_eq!(menu.state, DriveFormatState::Formatting(Provision::Counting));
    assert_eq!(menu.work(), Some(Request::CountVolumes));

    assert_eq!(finish_work(&mut menu), 9);
    match &menu.state {
        DriveFormatState::Formatting(work) => assert_eq!(work.outcome(), Some(Ok(created_volume()))),
        _ => panic!("the drive is not being made"),
    }

    assert_eq!(
        menu.do_action(&mut manager, &Action::FormatDrive),
        Ok((true, vec![Action::CloseFormatMenu, Action::CreateDrive(created_volume())]))
    );
    assert_eq!(menu.state, DriveFormatState::Done);
    assert_eq!(menu.work(), None);
}

#[test]
fn format_drive_waits_for_the_outside_work() {
    let mut manager = DisplayManager::new();
    let mut menu = DriveFormat::new(&mut manager, GIB).unwrap();
    assert_eq!(menu.do_action(&mut manager, &Action::FormatDrive), Ok((false, vec![])));
    assert_eq!(menu.do_action(&mut manager, &Action::FormatDrive), Ok((false, vec![])));
    assert_eq!(menu.state, DriveFormatState::Formatting(Provision::Counting));
    menu.resume(Reply::VolumeCount(0));
    assert_eq!(menu.do_action(&mut manager, &Action::FormatDrive), Ok((false, vec![])));
    assert_eq!(menu.work(), Some(Request::CreateVolume { name: "Drive0".to_string(), size: GIB }));
}

#[test]
fn format_drive_reports_backend_failure() {
    let mut manager = DisplayManager::new();
    let mut menu = DriveFormat::new(&mut manager, GIB).unwrap();
    menu.do_action(&mut manager, &Action::FormatDrive).unwrap();
    menu.resume(Reply::Failed);
    assert_eq!(menu.do_action(&mut manager, &Action::FormatDrive), Err(Error::Backend));
    assert_eq!(menu.state, DriveFormatState::Formatting(Provision::Refused));
}

#[test]
fn format_drive_reports_tool_failure() {
    let mut manager = DisplayManager::new();
    let mut menu = DriveFormat::new(&mut manager, GIB).unwrap();
    menu.do_action(&mut manager, &Action::FormatDrive).unwrap();
    menu.resume(Reply::VolumeCount(2));
    menu.resume(Reply::VolumeCreated(created_volume()));
    menu.resume(Reply::Failed);
    assert_eq!(menu.do_action(&mut manager, &Action::FormatDrive), Err(Error::ExternalTool));
}

#[test]
fn format_drive_after_done_is_consumed_without_effect() {
    let mut manager = DisplayManager::new();
    let mut menu = DriveFormat::new(&mut manager, GIB).unwrap();
    menu.do_action(&mut manager, &Action::FormatDrive).unwrap();
    finish_work(&mut menu);
    menu.do_action(&mut manager, &Action::FormatDrive).unwrap();
    assert_eq!(menu.do_action(&mut manager, &Action::FormatDrive), Ok((true, vec![])));
    assert_eq!(menu.state, DriveFormatState::Done);
}

#[test]
fn replies_outside_formatting_are_dropped() {
    let mut manager = DisplayManager::new();
    let mut menu = DriveFormat::new(&mut manager, GIB).unwrap();
    let before = menu.clone();
    menu.resume(Reply::VolumeCount(4));
    assert_eq!(menu, before);
}

#[test]
fn drive_format_ignores_other_actions() {
    let mut manager = DisplayManager::new();
    let mut menu = DriveFormat::new(&mut manager, GIB).unwrap();
    for action in [
        Action::OpenSizeMenu,
        Action::IncDriveSize,
        Action::DecDriveSize,
        Action::OpenFormatMenu,
        Action::CloseFormatMenu,
        Action::CreateDrive(created_volume()),
    ] {
        assert_eq!(menu.do_action(&mut manager, &action), Ok((false, vec![])));
    }
    assert_eq!(menu.state, DriveFormatState::Selecting);
}

#[test]
fn event_goes_to_the_deepest_focused_widget() {
    let mut manager = DisplayManager::new();
    let mut newdrive = NewDrive::new(&mut manager, 2 * GIB).unwrap();
    manager.shift_focus(newdrive.window).unwrap();
    assert_eq!(manager.on_event(&mut newdrive, &Event::Select), Ok(vec![Action::OpenSizeMenu]));
    press(&mut manager, &mut newdrive, Event::Select);
    assert_eq!(manager.on_event(&mut newdrive, &Event::Select), Ok(vec![Action::OpenFormatMenu]));
    press(&mut manager, &mut newdrive, Event::Select);
    assert_eq!(manager.focused(), format_menu(&newdrive).windowid);
    assert_eq!(size_menu(&newdrive).children(), vec![format_menu(&newdrive).windowid]);
    assert_eq!(format_menu(&newdrive).children(), Vec::<WindowId>::new());
    assert_eq!(manager.get(format_menu(&newdrive).windowid).unwrap().parent, size_menu(&newdrive).window);
    assert_eq!(manager.on_event(&mut newdrive, &Event::Select), Ok(vec![Action::FormatDrive]));
    assert_eq!(manager.on_event(&mut newdrive, &Event::Down), Ok(vec![]));
    assert_eq!(format_menu(&newdrive).selected, InitialDriveFormat::MacOs);
    assert_eq!(size_menu(&newdrive).current_percent, 50);
}

#[test]
fn unhandled_event_bubbles_to_the_parent() {
    let mut manager = DisplayManager::new();
    let vg = VolumeGroup { vg_size: GIB, volumes: vec![created_volume()] };
    let mut piso = PIso::new(&mut manager, &vg).unwrap();
    manager.enter(piso.drives[0].window).unwrap();
    let inner = manager.add_child(Position::Normal).unwrap();
    manager.shift_focus(inner).unwrap();
    assert_eq!(manager.on_event(&mut piso, &Event::Select), Ok(vec![]));
    manager.shift_focus(piso.newdrive.window).unwrap();
    manager.enter(piso.newdrive.window).unwrap();
    let below = manager.add_child(Position::Normal).unwrap();
    manager.shift_focus(below).unwrap();
    assert_eq!(manager.on_event(&mut piso, &Event::Select), Ok(vec![Action::OpenSizeMenu]));
}

#[test]
fn event_off_the_focus_path_is_not_delivered() {
    let mut manager = DisplayManager::new();
    let mut newdrive = NewDrive::new(&mut manager, GIB).unwrap();
    assert_eq!(manager.focused(), manager.root());
    assert_eq!(manager.on_event(&mut newdrive, &Event::Select), Ok(vec![]));
    manager.shift_focus(newdrive.window).unwrap();
    assert_eq!(manager.on_event(&mut newdrive, &Event::Up), Ok(vec![]));
    assert_eq!(manager.on_event(&mut newdrive, &Event::Select), Ok(vec![Action::OpenSizeMenu]));
}

#[test]
fn event_for_unknown_root_fails() {
    let mut manager = DisplayManager::new();
    let mut newdrive = NewDrive::new(&mut manager, GIB).unwrap();
    let other = DisplayManager::new();
    assert_eq!(other.on_event(&mut newdrive, &Event::Select), Err(Error::InvalidWindow));
    assert_eq!(newdrive.state, NewDriveState::Unselected);
}

#[test]
fn dispatch_is_repeatable() {
    let mut manager = DisplayManager::new();
    let mut newdrive = NewDrive::new(&mut manager, GIB).unwrap();
    manager.shift_focus(newdrive.window).unwrap();
    let mut twin = newdrive.clone();
    for event in [Event::Select, Event::Up, Event::Down] {
        let first = manager.on_event(&mut newdrive, &event);
        let second = manager.on_event(&mut twin, &event);
        assert_eq!(first, second);
        assert_eq!(newdrive, twin);
    }
}

#[test]
fn pass_keeps_unconsumed_actions_before_new_ones() {
    let mut manager = DisplayManager::new();
    let mut newdrive = NewDrive::new(&mut manager, 2 * GIB).unwrap();
    manager.shift_focus(newdrive.window).unwrap();
    press(&mut manager, &mut newdrive, Event::Select);
    press(&mut manager, &mut newdrive, Event::Select);
    let mut actions = vec![Action::FormatDrive];
    manager.do_actions(&mut newdrive, &mut actions).unwrap();
    assert_eq!(actions, vec![Action::FormatDrive]);
    finish_work(&mut newdrive);

    let stray = Volume { name: "x".to_string(), path: "/x".to_string(), size: 1 };
    let mut actions = vec![Action::FormatDrive, Action::CreateDrive(stray.clone()), Action::IncDriveSize];
    manager.do_actions(&mut newdrive, &mut actions).unwrap();
    assert_eq!(
        actions,
        vec![Action::CreateDrive(stray), Action::CloseFormatMenu, Action::CreateDrive(created_volume())]
    );
    assert_eq!(size_menu(&newdrive).current_percent, 55);
    assert_eq!(format_menu(&newdrive).state, DriveFormatState::Done);
}

#[test]
fn pass_without_taker_leaves_the_queue() {
    let mut manager = DisplayManager::new();
    let mut newdrive = NewDrive::new(&mut manager, GIB).unwrap();
    let mut actions = vec![Action::IncDriveSize, Action::FormatDrive, Action::OpenFormatMenu];
    let before = actions.clone();
    manager.do_actions(&mut newdrive, &mut actions).unwrap();
    assert_eq!(actions, before);
    assert_eq!(newdrive.state, NewDriveState::Unselected);
}

#[test]
fn pass_stops_at_the_first_failure() {
    let mut manager = DisplayManager::with_limit(3);
    let mut newdrive = NewDrive::new(&mut manager, GIB).unwrap();
    let mut actions = vec![Action::OpenSizeMenu];
    manager.do_actions(&mut newdrive, &mut actions).unwrap();
    assert_eq!(manager.len(), 3);
    let mut actions = vec![Action::IncDriveSize, Action::OpenFormatMenu, Action::DecDriveSize];
    assert_eq!(manager.do_actions(&mut newdrive, &mut actions), Err(Error::WindowsExhausted));
    assert_eq!(actions, vec![Action::OpenFormatMenu, Action::DecDriveSize]);
    assert_eq!(size_menu(&newdrive).current_percent, 55);
    assert_eq!(size_menu(&newdrive).state, DriveSizeState::Unselected);
}

#[test]
fn new_widget_is_not_offered_the_action_that_made_it() {
    let mut manager = DisplayManager::new();
    let mut newdrive = NewDrive::new(&mut manager, GIB).unwrap();
    let mut actions = vec![Action::OpenSizeMenu, Action::IncDriveSize];
    manager.do_actions(&mut newdrive, &mut actions).unwrap();
    assert!(actions.is_empty());
    assert_eq!(size_menu(&newdrive).current_percent, 55);
    let mut actions = vec![Action::OpenSizeMenu];
    manager.do_actions(&mut newdrive, &mut actions).unwrap();
    assert_eq!(size_menu(&newdrive).current_percent, 50);
}

#[test]
fn open_menu_fails_for_unknown_window() {
    let mut manager = DisplayManager::new();
    let mut newdrive = NewDrive { window: WindowId { index: 5 }, vg_size: GIB, state: NewDriveState::Unselected };
    assert_eq!(newdrive.do_action(&mut manager, &Action::OpenSizeMenu), Err(Error::InvalidWindow));
    assert_eq!(newdrive.do_action(&mut manager, &Action::CloseFormatMenu), Err(Error::InvalidWindow));
    assert_eq!(newdrive.state, NewDriveState::Unselected);
    assert_eq!(manager.len(), 1);
}

#[test]
fn close_format_menu_returns_focus_to_the_entry() {
    let mut manager = DisplayManager::new();
    let mut newdrive = NewDrive::new(&mut manager, 2 * GIB).unwrap();
    manager.shift_focus(newdrive.window).unwrap();
    press(&mut manager, &mut newdrive, Event::Select);
    press(&mut manager, &mut newdrive, Event::Select);
    let mut actions = vec![Action::CloseFormatMenu];
    manager.do_actions(&mut newdrive, &mut actions).unwrap();
    assert!(actions.is_empty());
    assert_eq!(newdrive.state, NewDriveState::Unselected);
    assert_eq!(manager.focused(), newdrive.window);
    assert_eq!(newdrive.children(), Vec::<WindowId>::new());
}

#[test]
fn wizard_makes_a_drive_and_the_queue_drains() {
    let mut manager = DisplayManager::new();
    let vg = VolumeGroup { vg_size: 2 * GIB, volumes: vec![] };
    let mut piso = PIso::new(&mut manager, &vg).unwrap();
    assert_eq!(manager.focused(), manager.root());
    manager.shift_focus(piso.newdrive.window).unwrap();

    assert_eq!(press(&mut manager, &mut piso, Event::Select), 1);
    assert_eq!(press(&mut manager, &mut piso, Event::Up), 1);
    assert_eq!(press(&mut manager, &mut piso, Event::Select), 1);
    assert_eq!(press(&mut manager, &mut piso, Event::Down), 1);
    assert_eq!(press(&mut manager, &mut piso, Event::Down), 1);
    assert_eq!(format_menu(&piso.newdrive).selected, InitialDriveFormat::Linux);
    assert_eq!(format_menu(&piso.newdrive).size, 1181116416);

    let passes = press(&mut manager, &mut piso, Event::Select);
    assert_eq!(passes, 3);
    assert_eq!(piso.newdrive.state, NewDriveState::Unselected);
    assert_eq!(piso.drives.len(), 1);
    assert_eq!(
        piso.drives[0].volume,
        Volume { name: "Drive2".to_string(), path: "/dev/VolGroup00/Drive2".to_string(), size: 1181116416 }
    );
    assert_eq!(manager.focused(), piso.drives[0].window);
    assert_eq!(manager.get(piso.drives[0].window).unwrap().parent, piso.window);
    assert_eq!(piso.children(), vec![piso.drives[0].window, piso.newdrive.window]);
}

#[test]
fn every_pass_of_the_wizard_lightens_the_queue() {
    let mut manager = DisplayManager::new();
    let vg = VolumeGroup { vg_size: 2 * GIB, volumes: vec![] };
    let mut piso = PIso::new(&mut manager, &vg).unwrap();
    manager.shift_focus(piso.newdrive.window).unwrap();
    press(&mut manager, &mut piso, Event::Select);
    press(&mut manager, &mut piso, Event::Select);
    let weigh = |queue: &Vec<Action>| -> usize {
        queue.iter().map(|action| if *action == Action::FormatDrive { 3 } else { 1 }).sum()
    };
    let mut actions = manager.on_event(&mut piso, &Event::Select).unwrap();
    assert_eq!(actions, vec![Action::FormatDrive]);
    let start = weigh(&actions);
    let mut weights = vec![start];
    let mut passes = 0;
    while !actions.is_empty() {
        manager.do_actions(&mut piso, &mut actions).unwrap();
        finish_work(&mut piso);
        weights.push(weigh(&actions));
        passes += 1;
        assert!(passes <= start);
    }
    assert_eq!(weights, vec![3, 3, 2, 0]);
}

#[test]
fn piso_lists_the_volumes_of_the_group() {
    let mut manager = DisplayManager::new();
    let first = Volume { name: "Drive0".to_string(), path: "/dev/VolGroup00/Drive0".to_string(), size: 512 };
    let second = Volume { name: "Drive1".to_string(), path: "/dev/VolGroup00/Drive1".to_string(), size: 1024 };
    let vg = VolumeGroup { vg_size: GIB, volumes: vec![first.clone(), second.clone()] };
    let piso = PIso::new(&mut manager, &vg).unwrap();
    assert_eq!(piso.window, WindowId { index: 1 });
    assert_eq!(
        piso.drives,
        vec![
            VirtualDrive { window: WindowId { index: 2 }, volume: first },
            VirtualDrive { window: WindowId { index: 3 }, volume: second },
        ]
    );
    assert_eq!(piso.newdrive, NewDrive { window: WindowId { index: 4 }, vg_size: GIB, state: NewDriveState::Unselected });
    assert_eq!(manager.len(), 5);
    assert_eq!(manager.get(piso.window).unwrap().parent, manager.root());
    for index in 2..5 {
        assert_eq!(
            manager.get(WindowId { index }),
            Some(Window { position: Position::Normal, focus: index == 2, parent: piso.window })
        );
    }
    assert_eq!(manager.focused(), WindowId { index: 2 });
}

#[test]
fn piso_without_room_fails() {
    let vg = VolumeGroup { vg_size: GIB, volumes: vec![created_volume(), created_volume()] };
    for limit in 1..5 {
        let mut manager = DisplayManager::with_limit(limit);
        assert_eq!(PIso::new(&mut manager, &vg).err(), Some(Error::WindowsExhausted));
        assert_eq!(manager.len(), limit);
    }
    let mut manager = DisplayManager::with_limit(5);
    assert!(PIso::new(&mut manager, &vg).is_ok());
}

#[test]
fn build_drives_makes_one_entry_per_volume() {
    let mut manager = DisplayManager::new();
    let vg = VolumeGroup { vg_size: GIB, volumes: vec![created_volume(), created_volume(), created_volume()] };
    let drives = PIso::build_drives_from_vg(&mut manager, &vg).unwrap();
    assert_eq!(drives.len(), 3);
    for (i, drive) in drives.iter().enumerate() {
        assert_eq!(drive.window, WindowId { index: i + 1 });
        assert_eq!(drive.volume, created_volume());
    }
    let empty = VolumeGroup { vg_size: GIB, volumes: vec![] };
    assert_eq!(PIso::build_drives_from_vg(&mut manager, &empty), Ok(vec![]));
    assert_eq!(manager.len(), 4);
}

#[test]
fn add_drive_focuses_only_the_first() {
    let mut manager = DisplayManager::new();
    let vg = VolumeGroup { vg_size: GIB, volumes: vec![] };
    let mut piso = PIso::new(&mut manager, &vg).unwrap();
    let first = piso.add_drive(&mut manager, created_volume()).unwrap().clone();
    assert_eq!(first.volume, created_volume());
    assert_eq!(manager.focused(), first.window);
    let other = Volume { name: "Drive3".to_string(), path: "/dev/VolGroup00/Drive3".to_string(), size: 7 };
    let second = piso.add_drive(&mut manager, other.clone()).unwrap().clone();
    assert_eq!(second.volume, other);
    assert_eq!(manager.focused(), first.window);
    assert_eq!(piso.drives, vec![first, second]);
}

#[test]
fn add_drive_fails_without_room() {
    let mut manager = DisplayManager::with_limit(3);
    let vg = VolumeGroup { vg_size: GIB, volumes: vec![] };
    let mut piso = PIso::new(&mut manager, &vg).unwrap();
    assert_eq!(piso.add_drive(&mut manager, created_volume()).err(), Some(Error::WindowsExhausted));
    assert!(piso.drives.is_empty());
}

#[test]
fn create_drive_reaches_the_application_widget() {
    let mut manager = DisplayManager::new();
    let vg = VolumeGroup { vg_size: GIB, volumes: vec![] };
    let mut piso = PIso::new(&mut manager, &vg).unwrap();
    assert_eq!(piso.on_event(&Event::Select), (false, vec![]));
    let mut actions = vec![Action::CreateDrive(created_volume())];
    manager.do_actions(&mut piso, &mut actions).unwrap();
    assert!(actions.is_empty());
    assert_eq!(piso.drives.len(), 1);
    assert_eq!(piso.drives[0].volume, created_volume());
}

#[test]
fn virtual_drive_takes_nothing() {
    let mut manager = DisplayManager::new();
    let mut drive = VirtualDrive::new(&mut manager, created_volume()).unwrap();
    manager.shift_focus(drive.window).unwrap();
    assert_eq!(manager.on_event(&mut drive, &Event::Select), Ok(vec![]));
    let mut actions = vec![Action::FormatDrive];
    manager.do_actions(&mut drive, &mut actions).unwrap();
    assert_eq!(actions, vec![Action::FormatDrive]);
    assert_eq!(drive.work(), None);
    assert_eq!(drive.children(), Vec::<WindowId>::new());
}

#[test]
fn action_duplicate_is_equal() {
    for action in [Action::FormatDrive, Action::CreateDrive(created_volume()), Action::OpenSizeMenu] {
        assert_eq!(action.duplicate(), action);
    }
}

#[test]
fn new_drive_renders_its_entry() {
    let mut manager = DisplayManager::new();
    let font = code_font();
    let newdrive = NewDrive::new(&mut manager, GIB).unwrap();
    let plain = newdrive.render(&font, &manager.get(newdrive.window).unwrap()).unwrap();
    assert_eq!(plain.width(), 21);
    assert_eq!(plain.height(), 4);
    assert_eq!(row(&plain, 0, 0, 21), [vec![0; 12], vec![1; 9]].concat());
    assert_eq!(row(&plain, 1, 0, 21), vec![0; 21]);
    assert_eq!(row(&plain, 2, 0, 21), vec![0; 21]);
    assert_eq!(row(&plain, 3, 0, 21), [vec![0; 12], codes("New Drive")].concat());

    manager.shift_focus(newdrive.window).unwrap();
    let focused = newdrive.render(&font, &manager.get(newdrive.window).unwrap()).unwrap();
    assert_eq!(row(&focused, 0, 0, 21), [vec![200], vec![0; 11], vec![1; 9]].concat());
    assert_eq!(row(&focused, 3, 0, 21), row(&plain, 3, 0, 21));
}

#[test]
fn drive_size_renders_heading_and_label() {
    let mut manager = DisplayManager::new();
    let font = code_font();
    let menu = DriveSize::new(&mut manager, 2 * GIB).unwrap();
    let bitmap = menu.render(&font, &manager.get(menu.window).unwrap()).unwrap();
    assert_eq!(bitmap.width(), 22);
    assert_eq!(bitmap.height(), 31);
    assert_eq!(row(&bitmap, 0, 0, 22), [codes("New drive capacity:"), vec![0; 3]].concat());
    assert_eq!(row(&bitmap, 30, 0, 22), [vec![0; 10], codes("50% (1.00GB)")].concat());
    assert_eq!(row(&bitmap, 15, 0, 22), vec![0; 22]);
}

#[test]
fn drive_format_renders_the_list() {
    let mut manager = DisplayManager::new();
    let font = code_font();
    let mut menu = DriveFormat::new(&mut manager, GIB).unwrap();
    menu.selected = InitialDriveFormat::Linux;
    let bitmap = menu.render(&font, &manager.get(menu.windowid).unwrap()).unwrap();
    assert_eq!(bitmap.width(), 128);
    assert_eq!(bitmap.height(), 64);
    assert_eq!(row(&bitmap, 0, 0, 14), codes("Select Format:"));
    assert_eq!(row(&bitmap, 9, 10, 14), codes("Windows (NTFS)"));
    assert_eq!(row(&bitmap, 18, 10, 13), codes("MacOS (EXFAT)"));
    assert_eq!(row(&bitmap, 27, 10, 12), codes("Linux (EXT3)"));
    assert_eq!(row(&bitmap, 36, 10, 17), codes("Universal (FAT32)"));
    for (y, expected) in [(9, 0), (18, 0), (27, 200), (36, 0)] {
        assert_eq!(bitmap.pixel(2, y), expected);
    }
}

#[test]
fn drive_format_renders_a_notice_while_formatting() {
    let mut manager = DisplayManager::new();
    let font = code_font();
    let mut menu = DriveFormat::new(&mut manager, GIB).unwrap();
    menu.do_action(&mut manager, &Action::FormatDrive).unwrap();
    let bitmap = menu.render(&font, &manager.get(menu.windowid).unwrap()).unwrap();
    assert_eq!(bitmap.width(), 128);
    assert_eq!(bitmap.height(), 64);
    assert_eq!(row(&bitmap, 0, 0, 21), [codes("Formatting new drive"), vec![0]].concat());
    assert_eq!(row(&bitmap, 9, 0, 30), vec![0; 30]);
}

#[test]
fn virtual_drive_renders_its_name() {
    let mut manager = DisplayManager::new();
    let font = code_font();
    let drive = VirtualDrive::new(&mut manager, created_volume()).unwrap();
    let plain = drive.render(&font, &manager.get(drive.window).unwrap()).unwrap();
    assert_eq!(plain.height(), 1);
    assert_eq!(row(&plain, 0, 0, 18), [vec![0; 12], codes("Drive2")].concat());
    manager.shift_focus(drive.window).unwrap();
    let focused = drive.render(&font, &manager.get(drive.window).unwrap()).unwrap();
    assert_eq!(row(&focused, 0, 0, 18), [vec![200], vec![0; 11], codes("Drive2")].concat());
}

#[test]
fn frame_stacks_normal_windows_and_overlays_fixed_ones() {
    let mut manager = DisplayManager::new();
    let font = code_font();
    let vg = VolumeGroup { vg_size: 2 * GIB, volumes: vec![created_volume()] };
    let mut piso = PIso::new(&mut manager, &vg).unwrap();
    let frame = manager.render(&piso, &font).unwrap();
    assert_eq!(frame.width(), 21);
    assert_eq!(frame.height(), 5);
    assert_eq!(row(&frame, 0, 0, 21), [vec![200], vec![0; 11], codes("Drive2"), vec![0; 3]].concat());
    assert_eq!(row(&frame, 1, 0, 21), [vec![0; 12], vec![1; 9]].concat());
    assert_eq!(row(&frame, 4, 0, 21), [vec![0; 12], codes("New Drive")].concat());

    manager.shift_focus(piso.newdrive.window).unwrap();
    press(&mut manager, &mut piso, Event::Select);
    let frame = manager.render(&piso, &font).unwrap();
    assert_eq!(frame.width(), 22);
    assert_eq!(frame.height(), 32);
    assert_eq!(row(&frame, 0, 0, 18), [vec![0; 12], codes("Drive2")].concat());
    assert_eq!(row(&frame, 1, 0, 22), [codes("New drive capacity:"), vec![0; 3]].concat());
    assert_eq!(row(&frame, 4, 0, 22), vec![0; 22]);
    assert_eq!(row(&frame, 31, 0, 22), [vec![0; 10], codes("50% (1.00GB)")].concat());
}

#[test]
fn rendering_twice_gives_the_same_frame() {
    let mut manager = DisplayManager::new();
    let font = code_font();
    let vg = VolumeGroup { vg_size: 2 * GIB, volumes: vec![created_volume()] };
    let mut piso = PIso::new(&mut manager, &vg).unwrap();
    manager.shift_focus(piso.newdrive.window).unwrap();
    press(&mut manager, &mut piso, Event::Select);
    press(&mut manager, &mut piso, Event::Select);
    let before = format!("{:?}", piso);
    let first = manager.render(&piso, &font);
    let second = manager.render(&piso, &font);
    assert!(first.is_ok());
    assert_eq!(first, second);
    assert_eq!(format!("{:?}", piso), before);
}

#[test]
fn render_fails_for_unknown_window() {
    let manager = DisplayManager::new();
    let font = code_font();
    let newdrive = NewDrive { window: WindowId { index: 3 }, vg_size: GIB, state: NewDriveState::Unselected };
    assert_eq!(manager.render(&newdrive, &font), Err(Error::InvalidWindow));
}

#[test]
fn render_fails_when_the_frame_is_too_large() {
    let mut manager = DisplayManager::new();
    let font = code_font();
    let mut newdrive = NewDrive::new(&mut manager, GIB).unwrap();
    manager.enter(newdrive.window).unwrap();
    let far = manager.add_child(Position::Fixed(usize::MAX, 0)).unwrap();
    newdrive.state = NewDriveState::PickingSize(DriveSize {
        window: far,
        current_percent: 50,
        vg_size: GIB,
        state: DriveSizeState::Unselected,
    });
    assert_eq!(manager.render(&newdrive, &font), Err(Error::FrameTooLarge));
}

#[test]
fn application_widget_draws_nothing_of_its_own() {
    let mut manager = DisplayManager::new();
    let font = code_font();
    let vg = VolumeGroup { vg_size: GIB, volumes: vec![] };
    let piso = PIso::new(&mut manager, &vg).unwrap();
    let own = piso.render(&font, &manager.get(piso.window).unwrap()).unwrap();
    assert_eq!((own.width(), own.height()), (0, 0));
    assert_eq!(piso.windowid(), piso.window);
    assert_eq!(piso.newdrive.windowid(), piso.newdrive.window);
}

#[test]
fn application_widget_leaves_other_actions_alone() {
    let mut manager = DisplayManager::new();
    let vg = VolumeGroup { vg_size: GIB, volumes: vec![] };
    let mut piso = PIso::new(&mut manager, &vg).unwrap();
    let before = piso.clone();
    for action in [Action::IncDriveSize, Action::FormatDrive, Action::CloseFormatMenu, Action::OpenFormatMenu] {
        assert_eq!(piso.do_action(&mut manager, &action), Ok((false, vec![])));
    }
    assert_eq!(piso, before);
}

#[test]
fn select_during_formatting_does_not_start_again() {
    let mut manager = DisplayManager::new();
    let vg = VolumeGroup { vg_size: 2 * GIB, volumes: vec![] };
    let mut piso = PIso::new(&mut manager, &vg).unwrap();
    manager.shift_focus(piso.newdrive.window).unwrap();
    press(&mut manager, &mut piso, Event::Select);
    press(&mut manager, &mut piso, Event::Select);
    let mut actions = manager.on_event(&mut piso, &Event::Select).unwrap();
    manager.do_actions(&mut piso, &mut actions).unwrap();
    piso.resume(Reply::VolumeCount(5));
    let mut again = manager.on_event(&mut piso, &Event::Select).unwrap();
    assert_eq!(again, vec![Action::FormatDrive]);
    manager.do_actions(&mut piso, &mut again).unwrap();
    assert_eq!(again, vec![Action::FormatDrive]);
    assert_eq!(
        format_menu(&piso.newdrive).state,
        DriveFormatState::Formatting(Provision::Creating { count: 5 })
    );
}

#[test]
fn piso_without_volumes_leaves_the_focus() {
    let mut manager = DisplayManager::new();
    let held = manager.add_child(Position::Normal).unwrap();
    manager.shift_focus(held).unwrap();
    let vg = VolumeGroup { vg_size: GIB, volumes: vec![] };
    let mut piso = PIso::new(&mut manager, &vg).unwrap();
    assert_eq!(manager.focused(), held);
    assert!(manager.get(held).unwrap().focus);
    assert!(!manager.get(piso.window).unwrap().focus);
    assert!(!manager.get(piso.newdrive.window).unwrap().focus);
    assert_eq!(manager.get(piso.window).unwrap().parent, manager.root());
    assert_eq!(manager.on_event(&mut piso, &Event::Select), Ok(vec![]));
}

#[test]
fn piso_with_volumes_takes_the_focus_from_its_holder() {
    let mut manager = DisplayManager::new();
    let held = manager.add_child(Position::Normal).unwrap();
    manager.shift_focus(held).unwrap();
    let vg = VolumeGroup { vg_size: GIB, volumes: vec![created_volume(), created_volume()] };
    let piso = PIso::new(&mut manager, &vg).unwrap();
    assert_eq!(manager.focused(), piso.drives[0].window);
    assert!(!manager.get(held).unwrap().focus);
    assert!(!manager.get(piso.drives[1].window).unwrap().focus);
    assert!(!manager.get(piso.window).unwrap().focus);
}

#[test]
fn outside_work_ends_within_nine_replies() {
    let mut manager = DisplayManager::new();
    for failing in 0..10 {
        let mut menu = DriveFormat::new(&mut manager, GIB).unwrap();
        menu.do_action(&mut manager, &Action::FormatDrive).unwrap();
        let mut replies = 0;
        while let Some(request) = menu.work() {
            let reply = if replies == failing { Reply::Failed } else { perform(request) };
            menu.resume(reply);
            replies += 1;
            assert!(replies <= 9);
        }
        assert_eq!(replies, if failing < 9 { failing + 1 } else { 9 });
    }
}
