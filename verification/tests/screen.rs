use snipd::capture::mask::apply_polygon;
use snipd::capture::pixels::Image;
use snipd::capture::win::{
    active_window, capturable_windows, capture_area, capture_area_bgra, capture_virtual_desktop,
    monitor_at, monitor_by_id, monitors, virtual_desktop, Bounds, CaptureError, Frame,
    FrameGrabber, MonitorFacts, MonitorInfo, Rect, VirtualDesktop, WindowFacts,
};

fn rect(x: i32, y: i32, width: u32, height: u32) -> Bounds {
    Bounds { x, y, width, height }
}

/// Opaque white, so that any transparency came from the mask.
fn frame(width: u32, height: u32) -> Frame {
    let bytes = vec![255u8; 4 * width as usize * height as usize];
    Frame { image: Image::from_raw(width, height, bytes).unwrap(), origin: (0, 0) }
}

fn full(_: (i32, i32), width: u32, height: u32) -> Vec<u8> {
    vec![255u8; width as usize * height as usize]
}

#[test]
fn intersect_clips_to_the_overlap() {
    let a = Bounds { x: 0, y: 0, width: 100, height: 100 };
    let b = Bounds { x: 50, y: 50, width: 100, height: 100 };
    assert_eq!(a.intersect(b), Some(Bounds { x: 50, y: 50, width: 50, height: 50 }));
}

#[test]
fn intersect_returns_none_when_disjoint() {
    let a = Bounds { x: 0, y: 0, width: 10, height: 10 };
    let b = Bounds { x: 100, y: 100, width: 10, height: 10 };
    assert_eq!(a.intersect(b), None);
}

#[test]
fn intersect_handles_negative_origins() {
    // A second monitor to the left of the primary gives negative coordinates.
    let desktop = Bounds { x: -1920, y: 0, width: 3840, height: 1080 };
    let selection = Bounds { x: -200, y: 100, width: 400, height: 200 };
    assert_eq!(selection.intersect(desktop), Some(selection));
}

#[test]
fn crop_translates_out_of_virtual_screen_space() {
    // A frame that starts at -1920 maps a selection at -1920 to its first pixel.
    let image = Image::new(100, 100);
    let frame = Frame { image, origin: (-1920, -50) };
    let cropped = frame.crop(Bounds { x: -1920, y: -50, width: 10, height: 10 }).unwrap();
    assert_eq!(cropped.image.dimensions(), (10, 10));
    assert_eq!(cropped.origin, (-1920, -50));
}

#[test]
fn crop_clips_a_selection_dragged_past_the_edge() {
    let frame = Frame { image: Image::new(100, 100), origin: (0, 0) };
    let cropped = frame.crop(Bounds { x: 90, y: 90, width: 50, height: 50 }).unwrap();
    assert_eq!(cropped.image.dimensions(), (10, 10));
}

#[test]
fn rejects_a_degenerate_polygon() {
    let f = frame(50, 50);
    assert!(apply_polygon(&f, 1, rect(1, 1, 0, 0), full).is_err());
}

#[test]
fn a_rectangle_polygon_crops_to_its_bounds() {
    let f = frame(100, 100);
    let result = apply_polygon(&f, 4, rect(10, 20, 30, 40), full).unwrap();
    assert_eq!(result.image.dimensions(), (30, 40));
    assert_eq!(result.origin, (10, 20));
}

#[test]
fn colour_channels_are_left_untouched() {
    let f = frame(60, 60);
    let result = apply_polygon(&f, 4, rect(5, 5, 45, 45), full).unwrap();
    let pixel = result.image.get_pixel(10, 10);
    assert_eq!([pixel[0], pixel[1], pixel[2]], [255, 255, 255]);
}

#[test]
fn a_lasso_running_off_screen_is_clipped_not_rejected() {
    let f = frame(50, 50);
    // Reaches well past the frame on the right and at the bottom.
    let result = apply_polygon(&f, 4, rect(30, 30, 170, 170), full).unwrap();
    let (w, h) = result.image.dimensions();
    assert!(w <= 20 && h <= 20, "got {w}x{h}");
}

#[test]
fn coverage_becomes_the_alpha_channel() {
    let bytes: Vec<u8> = (0..16).collect();
    let f = Frame { image: Image::from_raw(2, 2, bytes).unwrap(), origin: (7, 8) };
    let cut = apply_polygon(&f, 3, rect(7, 8, 2, 2), |origin, width, height| {
        assert_eq!((origin, width, height), ((7, 8), 2, 2));
        vec![0, 64, 128, 255]
    })
    .unwrap();
    assert_eq!(
        *cut.image.as_raw(),
        vec![0, 1, 2, 0, 4, 5, 6, 64, 8, 9, 10, 128, 12, 13, 14, 255]
    );
}

#[test]
fn a_shape_off_the_frame_is_refused() {
    let f = frame(10, 10);
    let refused = apply_polygon(&f, 5, rect(20, 0, 4, 4), full);
    assert_eq!(refused.unwrap_err().message(), "the requested capture area is empty");
    assert!(apply_polygon(&f, 2, rect(0, 0, 4, 4), full).is_err());
    assert!(apply_polygon(&f, 3, rect(0, 0, 4, 0), full).is_err());
}

#[test]
fn edges_of_a_rectangle() {
    let b = rect(-5, 3, 10, 4);
    assert_eq!((b.right(), b.bottom()), (5, 7));
    assert!(!b.is_empty());
    assert!(rect(0, 0, 0, 4).is_empty());
    assert!(rect(0, 0, 4, 0).is_empty());
    assert!(b.contains(-5, 3) && b.contains(4, 6));
    assert!(!b.contains(5, 3) && !b.contains(-5, 7));
    assert_eq!(
        Bounds::from_rect(Rect { left: -3, top: 2, right: 7, bottom: 1 }),
        rect(-3, 2, 10, 0)
    );
}

#[test]
fn intersection_does_not_depend_on_the_order() {
    let a = rect(-10, -10, 30, 12);
    let b = rect(0, -4, 100, 100);
    assert_eq!(a.intersect(b), Some(rect(0, -4, 20, 6)));
    assert_eq!(b.intersect(a), Some(rect(0, -4, 20, 6)));
    // Touching edges share no pixel.
    assert_eq!(rect(0, 0, 5, 5).intersect(rect(5, 0, 5, 5)), None);
}

#[test]
fn far_rectangles_meet_without_overflow() {
    let wide = rect(i32::MAX - 1, 0, u32::MAX, 10);
    assert_eq!(wide.intersect(rect(i32::MAX - 1, 0, 1, 1)), Some(rect(i32::MAX - 1, 0, 1, 1)));
    assert_eq!(wide.intersect(rect(0, 0, 100, 10)), None);
}

#[test]
fn cropping_keeps_the_pixels() {
    let bytes: Vec<u8> = (0..3 * 2 * 4).collect();
    let f = Frame { image: Image::from_raw(3, 2, bytes).unwrap(), origin: (-1, -1) };
    let part = f.crop(rect(0, -1, 2, 2)).unwrap();
    assert_eq!(part.origin, (0, -1));
    assert_eq!(part.image.get_pixel(0, 0), [4, 5, 6, 7]);
    assert_eq!(part.image.get_pixel(1, 1), [20, 21, 22, 23]);
    assert_eq!(
        *part.image.as_raw(),
        vec![4, 5, 6, 7, 8, 9, 10, 11, 16, 17, 18, 19, 20, 21, 22, 23]
    );
}

#[test]
fn cropping_twice_is_cropping_once() {
    let bytes: Vec<u8> = (0..64).collect();
    let f = Frame { image: Image::from_raw(4, 4, bytes).unwrap(), origin: (0, 0) };
    let once = f.crop(rect(1, 1, 2, 2)).unwrap();
    let twice = f.crop(rect(1, 1, 3, 3)).unwrap().crop(rect(0, 0, 3, 3)).unwrap();
    assert_eq!(once.image.as_raw(), twice.image.as_raw());
    assert_eq!(once.origin, twice.origin);
    let whole = f.crop(f.bounds()).unwrap();
    assert_eq!(whole.image.as_raw(), f.image.as_raw());
}

#[test]
fn cropping_nothing_is_an_error() {
    let f = frame(4, 4);
    assert!(matches!(f.crop(rect(4, 0, 2, 2)), Err(CaptureError::EmptyArea)));
}

#[test]
fn a_desktop_has_no_negative_size() {
    let d = virtual_desktop(-1920, -5, 3840, -7);
    assert_eq!(d.as_rect(), rect(-1920, -5, 3840, 0));
}

#[test]
fn screen_pixels_are_swapped_and_opaque() {
    let desktop = rect(0, 0, 2, 2);
    let captured = capture_area(rect(1, 0, 5, 1), desktop, |area| {
        assert_eq!(area, rect(1, 0, 1, 1));
        Ok(vec![10, 20, 30, 0])
    })
    .unwrap();
    assert_eq!(captured.origin, (1, 0));
    assert_eq!(*captured.image.as_raw(), vec![30, 20, 10, 255]);
}

#[test]
fn recorded_pixels_keep_their_order() {
    let desktop = rect(0, 0, 2, 2);
    let (bytes, area) =
        capture_area_bgra(rect(0, 0, 1, 1), desktop, |_| Ok(vec![10, 20, 30, 0])).unwrap();
    assert_eq!(bytes, vec![10, 20, 30, 255]);
    assert_eq!(area, rect(0, 0, 1, 1));
}

#[test]
fn reading_can_fail() {
    let desktop = rect(0, 0, 4, 4);
    let off = capture_area(rect(9, 9, 1, 1), desktop, |_| Ok(Vec::new()));
    assert!(matches!(off, Err(CaptureError::EmptyArea)));
    let failed = capture_area(rect(0, 0, 1, 1), desktop, |_| Err("BitBlt failed".to_string()));
    assert_eq!(failed.unwrap_err().message(), "Windows GDI call failed: BitBlt failed");
    let short = capture_area(rect(0, 0, 2, 1), desktop, |_| Ok(vec![1, 2, 3, 4]));
    assert_eq!(
        short.unwrap_err().message(),
        "Windows GDI call failed: pixel buffer did not match image size"
    );
    let raw = capture_area_bgra(rect(0, 0, 1, 1), desktop, |_| Err("gone".to_string()));
    assert_eq!(raw.unwrap_err().message(), "Windows GDI call failed: gone");
    let short = capture_area_bgra(rect(0, 0, 2, 1), desktop, |_| Ok(vec![1, 2, 3, 4]));
    assert_eq!(
        short.unwrap_err().message(),
        "Windows GDI call failed: pixel buffer did not match image size"
    );
    let more = capture_area_bgra(rect(0, 0, 1, 1), desktop, |_| Ok(vec![1, 2, 3, 4, 5]));
    assert_eq!(more.unwrap().0, vec![1, 2, 3, 255]);
}

#[test]
fn the_whole_desktop_is_read_at_once() {
    let desktop = VirtualDesktop { x: -2, y: 0, width: 2, height: 1 };
    let captured = capture_virtual_desktop(desktop, |area| {
        assert_eq!(area, rect(-2, 0, 2, 1));
        Ok(vec![1, 2, 3, 4, 5, 6, 7, 8])
    })
    .unwrap();
    assert_eq!(*captured.image.as_raw(), vec![3, 2, 1, 255, 7, 6, 5, 255]);
}

#[test]
fn a_grabber_reads_one_area() {
    let grabber = FrameGrabber::new(rect(-3, 0, 10, 2), rect(0, 0, 4, 4)).unwrap();
    assert_eq!(grabber.area(), rect(0, 0, 7, 2).intersect(rect(0, 0, 4, 4)).unwrap());
    let bytes = 4 * 4 * grabber.area().height as usize;
    let frame = grabber.grab(Ok(vec![7; bytes + 3])).unwrap();
    assert_eq!(frame.len(), bytes);
    assert_eq!(frame[..8], [7, 7, 7, 255, 7, 7, 7, 255]);
    let short = grabber.grab(Ok(vec![7; bytes - 1]));
    assert_eq!(
        short.unwrap_err().message(),
        "Windows GDI call failed: pixel buffer did not match image size"
    );
    let failed = grabber.grab(Err("GetDIBits copied no scanlines".to_string()));
    assert_eq!(
        failed.unwrap_err().message(),
        "Windows GDI call failed: GetDIBits copied no scanlines"
    );
    assert!(FrameGrabber::new(rect(9, 9, 1, 1), rect(0, 0, 4, 4)).is_err());
}

fn wide(text: &str) -> Vec<u16> {
    text.encode_utf16().collect()
}

fn display(name: &str, left: i32, top: i32, right: i32, bottom: i32, flags: u32) -> MonitorFacts {
    let mut device = wide(name);
    device.resize(32, 0);
    MonitorFacts { device, rect: Rect { left, top, right, bottom }, flags, dpi: None }
}

fn displays() -> Vec<MonitorInfo> {
    let mut third = display("\\\\.\\DISPLAY3", 1920, 0, 3200, 1024, 0);
    third.dpi = Some(144);
    monitors(&vec![
        third,
        display("\\\\.\\DISPLAY2", -1280, 0, 0, 720, 0),
        display("\\\\.\\DISPLAY1", 0, 0, 1920, 1080, 1),
    ])
}

#[test]
fn the_primary_display_comes_first() {
    let list = displays();
    let labels: Vec<&str> = list.iter().map(|m| m.label.as_str()).collect();
    assert_eq!(
        labels,
        vec![
            "Display 1 - 1920 x 1080 (Primary)",
            "Display 2 - 1280 x 720",
            "Display 3 - 1280 x 1024",
        ]
    );
    let ids: Vec<&str> = list.iter().map(|m| m.id.as_str()).collect();
    assert_eq!(ids, vec!["\\\\.\\DISPLAY1", "\\\\.\\DISPLAY2", "\\\\.\\DISPLAY3"]);
    assert_eq!((list[0].dpi, list[2].dpi), (96, 144));
    assert!(list[0].is_primary && !list[1].is_primary);
}

#[test]
fn a_point_lies_on_one_display() {
    let list = displays();
    assert_eq!(monitor_at(&list, (-1, 5)).unwrap().id, "\\\\.\\DISPLAY2");
    assert_eq!(monitor_at(&list, (1919, 1079)).unwrap().id, "\\\\.\\DISPLAY1");
    assert_eq!(monitor_at(&list, (1920, 1023)).unwrap().id, "\\\\.\\DISPLAY3");
    assert!(monitor_at(&list, (0, 1080)).is_none());
    assert!(monitor_by_id(&list, "\\\\.\\DISPLAY9").is_none());
    assert_eq!(monitor_by_id(&list, "\\\\.\\DISPLAY2").unwrap().width, 1280);
}

fn window(title: &str, process: u32) -> WindowFacts {
    WindowFacts {
        visible: true,
        minimised: false,
        process,
        ex_style: 0,
        cloaked: Some(0),
        frame: Some(Rect { left: 10, top: 10, right: 110, bottom: 60 }),
        rect: Some(Rect { left: 0, top: 10, right: 120, bottom: 70 }),
        title: wide(title),
    }
}

#[test]
fn only_windows_of_others_are_offered() {
    let own = 7;
    assert!(window("a", 1).is_capturable(own));
    assert!(!window("a", own).is_capturable(own));
    assert!(!WindowFacts { visible: false, ..window("a", 1) }.is_capturable(own));
    assert!(!WindowFacts { minimised: true, ..window("a", 1) }.is_capturable(own));
    assert!(!WindowFacts { ex_style: 0x180, ..window("a", 1) }.is_capturable(own));
    assert!(!WindowFacts { cloaked: Some(2), ..window("a", 1) }.is_capturable(own));
    assert!(WindowFacts { cloaked: None, ..window("a", 1) }.is_capturable(own));
}

#[test]
fn a_window_has_the_frame_that_is_seen() {
    assert_eq!(window("a", 1).window_bounds(), Some(rect(10, 10, 100, 50)));
    let unseen = WindowFacts { frame: None, ..window("a", 1) };
    assert_eq!(unseen.window_bounds(), Some(rect(0, 10, 120, 60)));
    let nowhere = WindowFacts { frame: None, rect: None, ..window("a", 1) };
    assert!(nowhere.window_bounds().is_none());
    assert!(nowhere.describe_window().is_none());
    let flat = WindowFacts {
        frame: Some(Rect { left: 0, top: 0, right: 5, bottom: 0 }),
        ..window("a", 1)
    };
    assert!(flat.describe_window().is_none());
}

#[test]
fn titles_are_decoded() {
    let mut w = window("", 1);
    w.title = vec![0x48, 0xd83d, 0xde00, 0xd800, 0x69];
    assert_eq!(w.describe_window().unwrap().title, "H\u{1f600}\u{fffd}i");
    w.title = vec![0xdc00, 0xd800, 0xd83d, 0xde00, 0xffff, 0xdbff, 0xdfff, 0xd800];
    assert_eq!(
        w.describe_window().unwrap().title,
        "\u{fffd}\u{fffd}\u{1f600}\u{ffff}\u{10ffff}\u{fffd}"
    );
}

#[test]
fn offered_windows_are_clipped() {
    let list = vec![window("one", 1), window("mine", 7), window("two", 2)];
    let offered = capturable_windows(&list, 7, rect(0, 0, 50, 50));
    let titles: Vec<&str> = offered.iter().map(|w| w.title.as_str()).collect();
    assert_eq!(titles, vec!["one", "two"]);
    assert_eq!(offered[0].bounds, rect(10, 10, 40, 40));
    assert_eq!(capturable_windows(&list, 7, rect(500, 0, 50, 50)).len(), 0);
}

#[test]
fn the_frontmost_window_of_another_program_is_active() {
    let list = vec![window("mine", 7), window("behind", 2)];
    let front = window("front", 3);
    assert_eq!(active_window(Some(&front), &list, 7).unwrap().title, "front");
    let own = window("own", 7);
    assert_eq!(active_window(Some(&own), &list, 7).unwrap().title, "behind");
    assert_eq!(active_window(None, &list, 7).unwrap().title, "behind");
    let none = active_window(None, &vec![window("mine", 7)], 7);
    assert_eq!(none.unwrap_err().message(), "no foreground window could be identified");
}
