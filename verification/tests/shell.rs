use snipd::branding::{APP_NAME, DATA_DIR_NAME};
use snipd::capture::pixels::Image;
use snipd::capture::win::{Bounds, Frame, MonitorInfo, VirtualDesktop, WindowTarget};
use snipd::capture::CaptureKind;
use snipd::clock::LocalTime;
use snipd::config::ShortcutSettings;
use snipd::log;
use snipd::order::stable_order;
use snipd::overlay::{
    begin_capture, capture_freeform, capture_rect, freeze, overlay_state, take_session,
    CaptureSession, RectSelection,
};
use snipd::pin::{label_of, next_pin_id, pin_state, PinRegistry};
use snipd::shortcuts::{apply, dispatch, Action, Dispatch, ImmediateMode, Stage, Step};
use snipd::tray::{build, menu_action, MenuAction, MenuLine};

fn monitor(label: &str, x: i32) -> MonitorInfo {
    MonitorInfo {
        id: label.to_string(),
        label: label.to_string(),
        x,
        y: 0,
        width: 4,
        height: 4,
        dpi: 96,
        is_primary: x == 0,
    }
}

fn session() -> CaptureSession {
    let bytes: Vec<u8> = (0..128).collect();
    let frame = Frame { image: Image::from_raw(8, 4, bytes).unwrap(), origin: (0, 0) };
    let windows = vec![WindowTarget {
        bounds: Bounds { x: 0, y: 0, width: 2, height: 2 },
        title: "w".to_string(),
    }];
    freeze(
        frame,
        windows,
        vec![monitor("one", 0), monitor("two", 4)],
        VirtualDesktop { x: 0, y: 0, width: 8, height: 4 },
        77,
        "freeform".to_string(),
    )
    .unwrap()
}

#[test]
fn the_main_window_is_out_of_the_picture() {
    let open = begin_capture(true, Some(3000), Some("window".to_string()));
    assert!(open.hide_main);
    assert_eq!((open.settle_ms, open.delay_ms), (140, 3000));
    assert_eq!(open.mode, "window");
    let closed = begin_capture(false, None, None);
    assert!(!closed.hide_main);
    assert_eq!((closed.settle_ms, closed.delay_ms), (0, 0));
    assert_eq!(closed.mode, "rectangle");
}

#[test]
fn the_overlay_shows_a_session() {
    let s = session();
    assert_eq!(s.preview[..2], [0xff, 0xd8]);
    let state = overlay_state(Some(&s)).unwrap();
    assert_eq!(state.backdrop_url, "http://snipd.localhost/backdrop?v=77");
    assert_eq!(state.initial_mode, "freeform");
    assert_eq!(state.windows[0].title, "w");
    assert_eq!(state.monitors[1].label, "two");
    assert_eq!(state.desktop, s.desktop);
    assert_eq!(overlay_state(None).unwrap_err(), "no capture is in progress");
}

#[test]
fn nothing_is_frozen_of_nothing() {
    let empty = Frame { image: Image::new(0, 0), origin: (0, 0) };
    let desktop = VirtualDesktop { x: 0, y: 0, width: 0, height: 0 };
    let r = freeze(empty, Vec::new(), Vec::new(), desktop, 1, String::new());
    assert!(r.err().unwrap().starts_with("encoding overlay backdrop: "));
}

#[test]
fn a_session_is_used_once() {
    let mut slot = Some(session());
    assert_eq!(take_session(&mut slot).ok().unwrap().token, 77);
    assert!(slot.is_none());
    assert_eq!(take_session(&mut slot).err().unwrap(), "no capture is in progress");
}

#[test]
fn a_rectangle_is_cut_from_the_frozen_pixels() {
    let s = session();
    let bounds = Bounds { x: 5, y: 1, width: 99, height: 1 };
    let cut = capture_rect(
        &s,
        RectSelection { bounds, kind: CaptureKind::Region, source: None },
        &s.monitors,
    )
    .ok()
    .unwrap();
    assert_eq!(cut.frame.image.dimensions(), (3, 1));
    assert_eq!(cut.frame.image.get_pixel(0, 0), s.frame.image.get_pixel(5, 1));
    assert_eq!(cut.source.as_deref(), Some("two"));
    let named = RectSelection {
        bounds,
        kind: CaptureKind::ActiveWindow,
        source: Some("title".to_string()),
    };
    let cut = capture_rect(&s, named, &s.monitors).ok().unwrap();
    assert_eq!((cut.kind, cut.source.as_deref()), (CaptureKind::ActiveWindow, Some("title")));
    let off = Bounds { x: 50, y: 1, width: 9, height: 1 };
    let none = capture_rect(
        &s,
        RectSelection { bounds: off, kind: CaptureKind::Region, source: None },
        &s.monitors,
    );
    assert_eq!(none.err().unwrap(), "the requested capture area is empty");
}

#[test]
fn a_shape_is_cut_from_the_frozen_pixels() {
    let s = session();
    let extent = Bounds { x: 0, y: 0, width: 2, height: 1 };
    let cut = capture_freeform(&s, 3, extent, |_, _, _| vec![0, 9], &s.monitors).ok().unwrap();
    assert_eq!(cut.kind, CaptureKind::Freeform);
    assert_eq!(cut.source.as_deref(), Some("one"));
    assert_eq!(*cut.frame.image.as_raw(), vec![0, 1, 2, 0, 4, 5, 6, 9]);
    let none = capture_freeform(&s, 2, extent, |_, _, _| Vec::new(), &s.monitors);
    assert_eq!(none.err().unwrap(), "the requested capture area is empty");
}

#[test]
fn the_lowest_free_number_is_taken() {
    let open = ["pin-1", "pin-2", "pin-4"];
    assert_eq!(next_pin_id(|label: &String| open.contains(&label.as_str())), 3);
    assert_eq!(next_pin_id(|_| false), 1);
    assert_eq!(label_of(3), "pin-3");
}

#[test]
fn pins_remember_their_captures() {
    let mut pins = PinRegistry::new();
    pins.insert("pin-1".to_string(), "a.png".to_string());
    pins.insert("pin-2".to_string(), "b.png".to_string());
    pins.insert("pin-1".to_string(), "c.png".to_string());
    assert_eq!(pins.get("pin-1").unwrap(), "c.png");
    pins.remove("pin-1");
    assert_eq!(pins.get("pin-1").unwrap_err(), "this pin has no capture");
    assert_eq!(pins.get("pin-2").unwrap(), "b.png");
}

#[test]
fn a_pin_shows_its_capture() {
    let state = pin_state("C:\\s\\a.png", Some("00ff".to_string())).unwrap();
    assert_eq!(state.image_url, "http://snipd.localhost/full?k=00ff");
    assert_eq!(state.file_name, "a.png");
    assert_eq!(pin_state("a.png", None).unwrap_err(), "capture is unreadable");
}

/// Registers combinations one after the other, and gives what was asked for and
/// the warnings.
fn register_all(
    settings: &ShortcutSettings,
    register: impl Fn(&str, Action) -> Result<(), String>,
) -> (Vec<String>, Vec<String>) {
    let mut registration = apply(settings);
    assert!(matches!(registration.next(), Step::ClearAll));
    let mut asked = Vec::new();
    loop {
        match registration.next() {
            Step::ClearAll => panic!("what was registered would be lost"),
            Step::Register(combination, action) => {
                let outcome = register(&combination, action);
                asked.push(combination);
                registration.answer(outcome);
            }
            Step::Done(warnings) => {
                assert_eq!(registration.stage(), Stage::Ready(4));
                return (asked, warnings);
            }
        }
    }
}

#[test]
fn shortcuts_are_registered() {
    let (asked, warnings) = register_all(&ShortcutSettings::default(), |combination, action| {
        let expected = match action {
            Action::OpenOverlay => "CommandOrControl+Alt+S",
            Action::OpenOverlayRectangle => "CommandOrControl+Alt+3",
            Action::FullScreen => "CommandOrControl+Alt+1",
            Action::ActiveWindow => "CommandOrControl+Alt+2",
        };
        assert_eq!(combination, expected);
        Ok(())
    });
    assert_eq!(asked.len(), 4);
    assert!(warnings.is_empty());
}

#[test]
fn shortcuts_that_cannot_be_had_are_told_of() {
    let settings = ShortcutSettings {
        capture: " Alt+A ".to_string(),
        region: "ALT+a".to_string(),
        full_screen: "  ".to_string(),
        active_window: "Alt+B".to_string(),
    };
    let (asked, warnings) = register_all(&settings, |combination, _| {
        if combination == "Alt+B" {
            Err("taken".to_string())
        } else {
            assert_eq!(combination, "Alt+A");
            Ok(())
        }
    });
    assert_eq!(asked, vec!["Alt+A", "Alt+B"]);
    assert_eq!(
        warnings,
        vec![
            "Region shares the shortcut ALT+a with another action, so it was skipped.",
            "Active window could not use Alt+B: taken. Another application may already own it.",
        ]
    );
}

#[test]
fn a_refused_combination_is_free_for_the_next() {
    let settings = ShortcutSettings {
        capture: "Alt+A".to_string(),
        region: "Alt+A".to_string(),
        full_screen: String::new(),
        active_window: String::new(),
    };
    let (asked, warnings) = register_all(&settings, |_, action| match action {
        Action::OpenOverlay => Err("busy".to_string()),
        _ => Ok(()),
    });
    assert_eq!(asked, vec!["Alt+A", "Alt+A"]);
    assert_eq!(warnings.len(), 1);
    assert!(warnings[0].starts_with("New capture could not use Alt+A: busy."));
}

#[test]
fn actions_lead_somewhere() {
    assert_eq!(dispatch(Action::OpenOverlay), Dispatch::Overlay);
    assert_eq!(dispatch(Action::OpenOverlayRectangle), Dispatch::Overlay);
    assert_eq!(dispatch(Action::FullScreen), Dispatch::Immediate(ImmediateMode::FullScreen));
    assert_eq!(dispatch(Action::ActiveWindow), Dispatch::Immediate(ImmediateMode::ActiveWindow));
}

#[test]
fn every_item_of_the_menu_does_something() {
    let menu = build();
    assert_eq!(menu.len(), 9);
    let mut items = 0;
    for entry in &menu {
        if let MenuLine::Item { id, label } = entry {
            items += 1;
            assert!(menu_action(id).is_some());
            assert!(!label.is_empty());
        }
    }
    assert_eq!(items, 6);
    assert_eq!(menu_action("quit"), Some(MenuAction::Quit));
    assert_eq!(
        menu_action("window"),
        Some(MenuAction::Immediate(ImmediateMode::ActiveWindow))
    );
    assert_eq!(menu_action("Quit"), None);
}

#[test]
fn lines_of_the_log() {
    let at = LocalTime::new(1_789_907_525, 7_000_000, 0).unwrap();
    assert_eq!(log::line(&at, "hello"), "2026-09-20 12:32:05.007 hello");
    assert_eq!(log::path("/data", '/'), "/data/snipd.log");
    assert_eq!(log::startup("0.3.2", true), "--- snipd 0.3.2 starting (autostart=true) ---");
    assert_eq!(log::startup("1", false), "--- snipd 1 starting (autostart=false) ---");
}

#[test]
fn only_what_is_slow_is_logged() {
    assert_eq!(log::slow_line("freeze", 249), None);
    assert_eq!(log::slow_line("freeze", 250).as_deref(), Some("[slow] freeze took 250ms"));
}

#[test]
fn long_logs_are_put_aside() {
    assert!(!log::must_rotate(None));
    assert!(!log::must_rotate(Some(524_288)));
    assert!(log::must_rotate(Some(524_289)));
}

#[test]
fn sorting_keeps_equals_in_order() {
    let keys = vec![(2, 0, 0), (1, 5, 0), (1, -5, 0), (2, 0, 0), (1, 5, -1)];
    assert_eq!(stable_order(&keys), vec![2, 4, 1, 0, 3]);
    assert_eq!(stable_order(&Vec::new()), Vec::<usize>::new());
}

#[test]
fn the_program_has_a_name() {
    assert_eq!((APP_NAME, DATA_DIR_NAME), ("Snipd", "Snipd"));
}

#[test]
fn timed_steps_hand_on_their_value() {
    let mut runs = 0;
    let step = || {
        runs += 1;
        "done".to_string()
    };
    let (value, said) = log::timed("freeze", step, || 251);
    assert_eq!(value, "done");
    assert_eq!(said.as_deref(), Some("[slow] freeze took 251ms"));
    assert_eq!(runs, 1);
    let (value, said) = log::timed("freeze", || 7, || 0);
    assert_eq!((value, said), (7, None));
}
