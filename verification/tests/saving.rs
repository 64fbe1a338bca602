use snipd::capture::pixels::{decode_capture, Image};
use snipd::capture::win::{Bounds, Frame, MonitorInfo, Rect, VirtualDesktop, WindowFacts};
use snipd::capture::{
    capture_and_save, format_for, grab, save_frame, target_of, CaptureKind, CaptureRequest,
    SaveEvent, SaveSession, SaveStage, Screen,
};
use snipd::clipboard::{after_attempt, CopyStep, BASE_DELAY_MS, MAX_ATTEMPTS};
use snipd::clock::LocalTime;
use snipd::config::{ImageFormat, NamingMode, Settings};
use snipd::history::{list, FileFacts, HistoryIndex, HistoryQuery};
use snipd::keys::KeyCache;

fn moment() -> LocalTime {
    LocalTime::new(1_789_907_525, 250_000_000, 7200).unwrap()
}

fn settings() -> Settings {
    Settings::with_directory("/shots".to_string())
}

fn frame() -> Frame {
    let bytes: Vec<u8> = (0..24).collect();
    Frame { image: Image::from_raw(3, 2, bytes).unwrap(), origin: (0, 0) }
}

fn started(settings: &Settings, kind: CaptureKind, directory: &str) -> SaveSession {
    save_frame(
        &frame(),
        kind,
        Some("Display 1".to_string()),
        settings,
        directory,
        moment(),
        moment(),
        |_| false,
        |name: &String| format!("/shots/{name}"),
    )
    .unwrap()
}

fn monitor(id: &str, x: i32) -> MonitorInfo {
    MonitorInfo {
        id: id.to_string(),
        label: format!("Label {id}"),
        x,
        y: 0,
        width: 100,
        height: 50,
        dpi: 96,
        is_primary: x == 0,
    }
}

fn screen() -> Screen {
    let window = WindowFacts {
        visible: true,
        minimised: false,
        process: 3,
        ex_style: 0,
        cloaked: None,
        frame: Some(Rect { left: 5, top: 5, right: 15, bottom: 9 }),
        rect: None,
        title: "Editor".encode_utf16().collect(),
    };
    Screen {
        monitors: vec![monitor("A", 0), monitor("B", 100)],
        desktop: VirtualDesktop { x: 0, y: 0, width: 200, height: 50 },
        foreground: None,
        windows: vec![window],
        own_process: 9,
    }
}

#[test]
fn requests_come_to_areas() {
    let s = screen();
    let all = target_of(CaptureRequest::FullScreen { monitor_id: None }, &s).unwrap();
    assert_eq!(all.area, Bounds { x: 0, y: 0, width: 200, height: 50 });
    assert_eq!(all.source.as_deref(), Some("All displays"));
    assert_eq!(all.kind, CaptureKind::FullScreen);

    let id = Some("B".to_string());
    let one = target_of(CaptureRequest::FullScreen { monitor_id: id }, &s).unwrap();
    assert_eq!(one.area, Bounds { x: 100, y: 0, width: 100, height: 50 });
    assert_eq!(one.source.as_deref(), Some("Label B"));

    let window = target_of(CaptureRequest::ActiveWindow, &s).unwrap();
    assert_eq!(window.area, Bounds { x: 5, y: 5, width: 10, height: 4 });
    assert_eq!(window.source.as_deref(), Some("Editor"));
    assert_eq!(window.kind, CaptureKind::ActiveWindow);

    let bounds = Bounds { x: 150, y: 10, width: 999, height: 1 };
    let region = target_of(CaptureRequest::Region { bounds }, &s).unwrap();
    assert_eq!(region.area, bounds);
    assert_eq!(region.source.as_deref(), Some("Label B"));
    assert_eq!(region.kind, CaptureKind::Region);
}

#[test]
fn a_display_can_be_gone() {
    let id = Some("C".to_string());
    let gone = target_of(CaptureRequest::FullScreen { monitor_id: id }, &screen());
    assert_eq!(gone.unwrap_err(), "display C is no longer connected");
}

#[test]
fn a_window_may_have_no_title_and_there_may_be_none() {
    let mut s = screen();
    s.windows[0].title = "  ".encode_utf16().collect();
    assert!(target_of(CaptureRequest::ActiveWindow, &s).unwrap().source.is_none());
    s.windows.clear();
    assert_eq!(
        target_of(CaptureRequest::ActiveWindow, &s).unwrap_err(),
        "no foreground window could be identified"
    );
    let bounds = Bounds { x: -50, y: 0, width: 1, height: 1 };
    assert!(target_of(CaptureRequest::Region { bounds }, &s).unwrap().source.is_none());
}

#[test]
fn grabbing_reads_the_screen() {
    let bounds = Bounds { x: 199, y: 0, width: 5, height: 1 };
    let grabbed =
        grab(CaptureRequest::Region { bounds }, &screen(), |_| Ok(vec![1, 2, 3, 0])).unwrap();
    assert_eq!(*grabbed.frame.image.as_raw(), vec![3, 2, 1, 255]);
    assert_eq!(grabbed.frame.origin, (199, 0));
    assert_eq!(grabbed.source.as_deref(), Some("Label B"));
    let off = Bounds { x: 900, y: 0, width: 5, height: 1 };
    let refused = grab(CaptureRequest::Region { bounds: off }, &screen(), |_| Ok(Vec::new()));
    assert_eq!(refused.err().unwrap(), "the requested capture area is empty");
}

#[test]
fn capturing_leads_on_to_saving() {
    let bounds = Bounds { x: 0, y: 0, width: 1, height: 1 };
    let (frame, session) = capture_and_save(
        CaptureRequest::Region { bounds },
        &screen(),
        |_| Ok(vec![1, 2, 3, 0]),
        &settings(),
        "/shots",
        moment(),
        moment(),
        |_| false,
        |name: &String| format!("/shots/{name}"),
    )
    .unwrap();
    assert_eq!(*frame.image.as_raw(), vec![3, 2, 1, 255]);
    let read = decode_capture(&session.content, ImageFormat::Png).unwrap();
    assert_eq!(read.as_raw(), frame.image.as_raw());
    assert_eq!(session.record.kind, CaptureKind::Region);
    let failed = capture_and_save(
        CaptureRequest::Region { bounds },
        &screen(),
        |_| Err("GetDC returned an invalid DC".to_string()),
        &settings(),
        "/shots",
        moment(),
        moment(),
        |_| false,
        |name: &String| name.clone(),
    );
    assert_eq!(
        failed.err().unwrap(),
        "Windows GDI call failed: GetDC returned an invalid DC"
    );
}

#[test]
fn a_save_starts_with_the_file() {
    let session = started(&settings(), CaptureKind::Region, "/shots");
    assert_eq!(session.stage, SaveStage::Write);
    assert_eq!(session.part_name, "Screenshot_2026-09-20_14-32-05.png.part");
    let record = &session.record;
    assert_eq!(record.file_name, "Screenshot_2026-09-20_14-32-05.png");
    assert_eq!(record.path, "/shots/Screenshot_2026-09-20_14-32-05.png");
    // Three by two pixels: the sides' exclusive or is one.
    assert_eq!(record.id, "20260920143205250-1");
    assert_eq!(record.taken_at, "2026-09-20T14:32:05.250+02:00");
    assert_eq!((record.width, record.height), (3, 2));
    assert_eq!(record.source.as_deref(), Some("Display 1"));
    assert!(record.warnings.is_empty());
    assert!(!record.copied_to_clipboard);
    let read = decode_capture(&session.content, ImageFormat::Png).unwrap();
    assert_eq!(read.as_raw(), frame().image.as_raw());
}

#[test]
fn drawn_shapes_are_png_whatever_is_configured() {
    assert_eq!(format_for(CaptureKind::Freeform, ImageFormat::Jpeg), ImageFormat::Png);
    assert_eq!(format_for(CaptureKind::Region, ImageFormat::Jpeg), ImageFormat::Jpeg);
    let mut s = settings();
    s.format = ImageFormat::Jpeg;
    assert!(started(&s, CaptureKind::Freeform, "/shots").record.file_name.ends_with(".png"));
    assert!(started(&s, CaptureKind::Edited, "/shots").record.file_name.ends_with(".jpg"));
}

#[test]
fn another_folder_is_told_of() {
    let session = started(&settings(), CaptureKind::Region, "/home/Snipd");
    assert_eq!(
        session.record.warnings,
        vec!["Configured save folder was unavailable; saved to /home/Snipd instead."]
    );
}

#[test]
fn nothing_is_saved_of_nothing() {
    let empty = Frame { image: Image::new(0, 0), origin: (0, 0) };
    let r = save_frame(
        &empty,
        CaptureKind::Region,
        None,
        &settings(),
        "/shots",
        moment(),
        moment(),
        |_| false,
        |name: &String| name.clone(),
    );
    assert!(r.err().unwrap().starts_with("encoding PNG: "));
}

#[test]
fn saving_goes_from_the_file_to_the_index() {
    let mut s = settings();
    s.naming.mode = NamingMode::Prefix;
    s.naming.counter = 41;
    let mut session = started(&s, CaptureKind::Region, "/shots");
    assert_eq!(session.counter_used, Some(41));
    session.handle(SaveEvent::Written(Ok(1234)), &mut s);
    assert_eq!(session.stage, SaveStage::Persist);
    assert_eq!(s.naming.counter, 42);
    session.handle(SaveEvent::Persisted(Ok(())), &mut s);
    assert_eq!(session.stage, SaveStage::Copy);
    session.handle(SaveEvent::Copied(Ok(2)), &mut s);
    assert_eq!(session.stage, SaveStage::Index);
    session.handle(SaveEvent::Indexed(Ok(())), &mut s);
    let record = session.finish().unwrap().unwrap();
    assert_eq!(record.bytes, 1234);
    assert!(record.copied_to_clipboard);
    assert!(record.warnings.is_empty());
}

#[test]
fn later_failures_are_warnings() {
    let mut s = settings();
    s.naming.mode = NamingMode::Prefix;
    let mut session = started(&s, CaptureKind::Region, "/shots");
    session.handle(SaveEvent::Written(Ok(1)), &mut s);
    session.handle(SaveEvent::Persisted(Err("locked".to_string())), &mut s);
    session.handle(SaveEvent::Copied(Err("busy".to_string())), &mut s);
    session.handle(SaveEvent::Indexed(Err("full".to_string())), &mut s);
    let record = session.finish().unwrap().unwrap();
    assert!(!record.copied_to_clipboard);
    assert_eq!(
        record.warnings,
        vec![
            "Could not persist the filename counter: locked",
            "Could not copy to clipboard: busy",
            "Could not update the history index: full",
        ]
    );
}

#[test]
fn an_unwritten_file_is_a_failure() {
    let mut s = settings();
    let before = s.naming.counter;
    let mut session = started(&s, CaptureKind::Region, "/shots");
    session.handle(SaveEvent::Written(Err("disk full".to_string())), &mut s);
    assert_eq!(session.stage, SaveStage::Failed);
    assert_eq!(s.naming.counter, before);
    assert_eq!(session.finish().unwrap().unwrap_err(), "disk full");
}

#[test]
fn events_out_of_turn_change_nothing() {
    let mut s = settings();
    s.clipboard.auto_copy = false;
    let mut session = started(&s, CaptureKind::Region, "/shots");
    session.handle(SaveEvent::Copied(Ok(1)), &mut s);
    session.handle(SaveEvent::Indexed(Err("x".to_string())), &mut s);
    assert_eq!(session.stage, SaveStage::Write);
    session.handle(SaveEvent::Written(Ok(5)), &mut s);
    // Neither a counter to store nor an image to copy.
    assert_eq!(session.stage, SaveStage::Index);
    session.handle(SaveEvent::Written(Ok(6)), &mut s);
    assert_eq!(session.record.bytes, 5);
    assert!(session.finish().is_none());
}

#[test]
fn the_counter_stops_at_its_highest() {
    let mut s = settings();
    s.naming.mode = NamingMode::Prefix;
    s.naming.counter = u32::MAX - 1;
    let mut session = started(&s, CaptureKind::Region, "/shots");
    assert_eq!(session.counter_used, Some(u32::MAX - 1));
    session.handle(SaveEvent::Written(Ok(1)), &mut s);
    assert_eq!(s.naming.counter, u32::MAX);
}

#[test]
fn a_saved_capture_is_listed_with_its_moment() {
    let session = started(&settings(), CaptureKind::Region, "/shots");
    let files = vec![FileFacts {
        path: session.record.path.clone(),
        file_name: session.record.file_name.clone(),
        is_file: true,
        modified_ms: 3,
        bytes: 4,
    }];
    let index = HistoryIndex::load_index(vec![Some(session.record)]);
    let page = list(&HistoryQuery::default(), Some(&files), &index, &mut KeyCache::new());
    assert_eq!(page.entries[0].taken_at_ms, 1_789_907_525_250);
    assert_eq!(moment().millis(), 1_789_907_525_250);
}

#[test]
fn copying_is_tried_again() {
    assert!(matches!(after_attempt(1, Ok(())), CopyStep::Copied(1)));
    let mut waited = 0;
    let mut pauses: Vec<u64> = Vec::new();
    for attempt in 1..MAX_ATTEMPTS {
        match after_attempt(attempt, Err("busy".to_string())) {
            CopyStep::Retry(millis) => {
                waited += millis;
                pauses.push(millis);
            }
            _ => panic!("gave up after {attempt}"),
        }
    }
    assert_eq!(pauses, vec![8, 16, 32, 64, 128]);
    assert_eq!(waited, 31 * BASE_DELAY_MS);
    match after_attempt(MAX_ATTEMPTS, Err("busy".to_string())) {
        CopyStep::Failed(message) => {
            assert_eq!(message, "clipboard unavailable after 6 attempts: busy")
        }
        _ => panic!("went on"),
    }
}
