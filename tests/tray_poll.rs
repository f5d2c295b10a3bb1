use tray_echo::pixels::{check_pixel_buffer, PixelError, RgbaPixels};
use tray_echo::tray::{tray_host, tray_menu, ClickKind, EntryKind, TrayController, TrayHost};

#[test]
fn menu_is_fixed() {
    let menu = tray_menu();
    let labels: Vec<&str> = menu.iter().map(|e| e.label.as_str()).collect();
    assert_eq!(labels, vec!["Menu #1", "Menu #2", "", "Exit"]);
    assert_eq!(menu[2].kind, EntryKind::Separator);
    assert_eq!(menu[3].kind, EntryKind::Action);
    assert!(menu.iter().all(|e| e.enabled));
}

#[test]
fn each_tick_takes_at_most_one_event_of_each_kind() {
    let mut c = TrayController::new();
    c.push_icon_event(ClickKind::Right);
    c.push_menu_event(7);
    c.push_icon_event(ClickKind::Left);
    c.push_menu_event(9);
    c.push_icon_event(ClickKind::Double);

    let t = c.tick();
    assert_eq!((t.icon, t.menu, t.capture), (Some(ClickKind::Right), Some(7), false));
    let t = c.tick();
    assert_eq!((t.icon, t.menu, t.capture), (Some(ClickKind::Left), Some(9), true));
    let t = c.tick();
    assert_eq!((t.icon, t.menu, t.capture), (Some(ClickKind::Double), None, false));
    let t = c.tick();
    assert_eq!((t.icon, t.menu, t.capture), (None, None, false));
    assert!(c.icon_events.is_empty() && c.menu_events.is_empty());
}

#[test]
fn events_arriving_between_ticks_are_taken_in_order() {
    let mut c = TrayController::new();
    c.push_icon_event(ClickKind::Left);
    assert!(c.tick().capture);
    c.push_menu_event(1);
    c.push_menu_event(2);
    assert_eq!(c.tick().menu, Some(1));
    c.push_icon_event(ClickKind::Left);
    let t = c.tick();
    assert_eq!((t.icon, t.menu, t.capture), (Some(ClickKind::Left), Some(2), true));
}

#[test]
fn tray_host_follows_the_platform() {
    assert_eq!(tray_host(true), TrayHost::DedicatedThread);
    assert_eq!(tray_host(false), TrayHost::EventLoop);
}

#[test]
fn pixel_buffer_sizes() {
    assert_eq!(check_pixel_buffer(16, 2, 2), Ok(()));
    assert_eq!(check_pixel_buffer(0, 0, 5), Ok(()));
    assert_eq!(check_pixel_buffer(15, 2, 2), Err(PixelError::ByteCountNotDivisibleBy4));
    assert_eq!(check_pixel_buffer(20, 2, 2), Err(PixelError::DimensionsVsPixelCount));
    let p = RgbaPixels::from_rgba(vec![1, 2, 3, 4], 1, 1).unwrap();
    assert_eq!(p.rgba, vec![1, 2, 3, 4]);
    assert!(RgbaPixels::from_rgba(vec![1, 2, 3, 4], 2, 1).is_err());
}
