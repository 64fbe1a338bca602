use snipd::capture::pixels::{encode_capture, Image};
use snipd::capture::{CaptureKind, CaptureRecord, CaptureRequest};
use snipd::clock::LocalTime;
use snipd::commands::{
    announce_capture, answer, apply_edit, autostarted, capture_immediate, copy_capture,
    decode_edit, decode_edited, editor_target, hides_on_close, open_editor, query_param,
    read_edit, rename_capture, save_edited, serve_image, set_launch_on_login, starts_hidden,
    Probe, Rename, RENAME_ATTEMPTS,
};
use snipd::config::{ImageFormat, Settings, Theme};
use snipd::shortcuts::ImmediateMode;

fn settings() -> Settings {
    Settings::with_directory("/shots".to_string())
}

fn args(list: &[&str]) -> Vec<String> {
    list.iter().map(|a| a.to_string()).collect()
}

/// A red pixel beside a clear one.
fn image() -> Image {
    Image::from_raw(2, 1, vec![255, 0, 0, 255, 0, 0, 0, 0]).unwrap()
}

const DIGITS: &[u8; 64] = b"ABCDEFGHIJKLMNOPQRSTUVWXYZabcdefghijklmnopqrstuvwxyz0123456789+/";

fn base64(bytes: &[u8]) -> String {
    let mut out = String::new();
    for group in bytes.chunks(3) {
        let mut word = 0usize;
        for i in 0..3 {
            word = word * 256 + *group.get(i).unwrap_or(&0) as usize;
        }
        for i in 0..4 {
            if i <= group.len() {
                out.push(DIGITS[word >> (18 - 6 * i) & 63] as char);
            } else {
                out.push('=');
            }
        }
    }
    out
}

#[test]
fn logging_in_starts_hidden() {
    assert!(autostarted(&args(&["snipd.exe", "--autostart"])));
    assert!(!autostarted(&args(&["snipd.exe", "--autostart=1"])));
    let mut s = settings();
    assert!(starts_hidden(&args(&["snipd.exe", "--autostart"]), &s));
    assert!(!starts_hidden(&args(&["snipd.exe"]), &s));
    s.startup.start_minimised = false;
    assert!(!starts_hidden(&args(&["snipd.exe", "--autostart"]), &s));
}

#[test]
fn only_the_main_window_hides() {
    let mut s = settings();
    assert!(hides_on_close("main", &s));
    assert!(!hides_on_close("editor", &s));
    s.window.close_to_tray = false;
    assert!(!hides_on_close("main", &s));
}

#[test]
fn the_entry_for_logging_in() {
    assert_eq!(
        set_launch_on_login("C:\\s.exe", true),
        "New-ItemProperty -Path 'HKCU:\\Software\\Microsoft\\Windows\\CurrentVersion\\Run' \
         -Name 'Snipd' -Value '\"C:\\s.exe\" --autostart' -PropertyType String -Force | Out-Null"
    );
    assert_eq!(
        set_launch_on_login("C:\\s.exe", false),
        "Remove-ItemProperty -Path 'HKCU:\\Software\\Microsoft\\Windows\\CurrentVersion\\Run' \
         -Name 'Snipd' -ErrorAction SilentlyContinue"
    );
}

#[test]
fn captures_at_once() {
    assert!(matches!(
        capture_immediate(ImmediateMode::FullScreen),
        CaptureRequest::FullScreen { monitor_id: None }
    ));
    assert!(matches!(
        capture_immediate(ImmediateMode::ActiveWindow),
        CaptureRequest::ActiveWindow
    ));
}

#[test]
fn the_user_is_told_of_a_capture() {
    let record = CaptureRecord {
        id: String::new(),
        path: String::new(),
        file_name: "a.png".to_string(),
        width: 1920,
        height: 1080,
        taken_at: String::new(),
        kind: CaptureKind::Region,
        source: None,
        bytes: 0,
        copied_to_clipboard: false,
        warnings: Vec::new(),
    };
    let mut s = settings();
    let toast = announce_capture(&record, &s).unwrap();
    assert_eq!(toast.0, "Screenshot saved");
    assert_eq!(toast.1, "a.png  \u{b7}  1920 x 1080");
    s.notifications.show_saved_toast = false;
    assert!(announce_capture(&record, &s).is_none());
}

#[test]
fn edits_are_decoded() {
    assert_eq!(decode_edit("aGk=").unwrap(), vec![b'h', b'i']);
    assert_eq!(decode_edit("").unwrap(), Vec::<u8>::new());
    let bad = decode_edit("a*b=").unwrap_err();
    assert!(bad.starts_with("the edited image was not valid base64: "), "got {bad}");
    let file = encode_capture(&image(), ImageFormat::Png, 92).unwrap();
    assert_eq!(decode_edit(&base64(&file)).unwrap(), file);
    assert_eq!(read_edit(&file).unwrap().as_raw(), image().as_raw());
    assert_eq!(decode_edited(&base64(&file)).unwrap().as_raw(), image().as_raw());
    let none = decode_edited("aGk=").unwrap_err();
    assert!(none.starts_with("the edited image could not be decoded: "), "got {none}");
    assert!(decode_edited("?").is_err());
}

#[test]
fn edits_are_saved_as_captures_of_their_own() {
    let at = LocalTime::new(1_789_907_525, 0, 7200).unwrap();
    let file = encode_capture(&image(), ImageFormat::Png, 92).unwrap();
    let (frame, session) = save_edited(
        &base64(&file),
        &settings(),
        "/shots",
        at,
        at,
        |name: &String| name == "Screenshot_2026-09-20_14-32-05.png",
        |name: &String| format!("/shots/{name}"),
    )
    .unwrap();
    assert_eq!(frame.image.as_raw(), image().as_raw());
    assert_eq!(frame.origin, (0, 0));
    assert_eq!(session.record.kind, CaptureKind::Edited);
    assert_eq!(session.record.source.as_deref(), Some("Edited"));
    assert_eq!(session.record.path, "/shots/Screenshot_2026-09-20_14-32-05_2.png");
    let bad = save_edited("?", &settings(), "/s", at, at, |_| false, |n: &String| n.clone());
    assert!(bad.err().unwrap().starts_with("the edited image was not valid base64: "));
    let none = save_edited("aGk=", &settings(), "/s", at, at, |_| false, |n: &String| n.clone());
    assert!(none.err().unwrap().starts_with("the edited image could not be decoded: "));
}

#[test]
fn edits_too_wide_for_their_format_are_not_saved() {
    let at = LocalTime::new(1_789_907_525, 0, 0).unwrap();
    let wide = encode_capture(&Image::new(65_536, 1), ImageFormat::Png, 92).unwrap();
    let mut s = settings();
    let locate = |n: &String| n.clone();
    assert!(save_edited(&base64(&wide), &s, "/s", at, at, |_| false, locate).is_ok());
    s.format = ImageFormat::Jpeg;
    let refused = save_edited(&base64(&wide), &s, "/s", at, at, |_| false, locate);
    assert!(refused.err().unwrap().starts_with("encoding JPEG: "));
}

#[test]
fn edits_may_be_jpeg() {
    let file = encode_capture(&image(), ImageFormat::Jpeg, 92).unwrap();
    let told = decode_edited(&base64(&file)).unwrap();
    let read = copy_capture(&file, ImageFormat::Jpeg, "a.jpg").unwrap();
    assert_eq!(told.dimensions(), image().dimensions());
    assert_eq!(told.as_raw(), read.as_raw());
}

#[test]
fn saved_captures_are_copied() {
    let file = encode_capture(&image(), ImageFormat::Png, 92).unwrap();
    let read = copy_capture(&file, ImageFormat::Png, "a.png").unwrap();
    assert_eq!(read.as_raw(), image().as_raw());
    let bad = copy_capture(&vec![1], ImageFormat::Png, "a.png").unwrap_err();
    assert!(bad.starts_with("could not read a.png: "), "got {bad}");
    let bad = copy_capture(&vec![1], ImageFormat::Jpeg, "a.jpg").unwrap_err();
    assert!(bad.starts_with("could not read a.jpg: "), "got {bad}");
}

#[test]
fn blank_names_rename_nothing() {
    assert_eq!(apply_edit(Some(" x".to_string())).as_deref(), Some(" x"));
    assert!(apply_edit(Some(" \t".to_string())).is_none());
    assert!(apply_edit(None).is_none());
}

fn new_name(r: Result<Rename, String>) -> String {
    match r {
        Ok(Rename::To(name)) => name,
        other => panic!("{other:?}"),
    }
}

#[test]
fn renaming_keeps_the_extension() {
    let png = Some("PNG".to_string());
    assert_eq!(new_name(rename_capture("a:b", png, |_| Probe::Free)), "a_b.PNG");
    assert_eq!(new_name(rename_capture("x", None, |_| Probe::Free)), "x.png");
}

#[test]
fn renaming_takes_no_name_away() {
    let taken = ["x.png", "x_2.png"];
    let r = rename_capture("x", Some("png".to_string()), |name: &String| {
        if taken.contains(&name.as_str()) {
            Probe::Taken
        } else {
            Probe::Free
        }
    });
    assert_eq!(new_name(r), "x_3.png");
    let full = rename_capture("x", None, |_| Probe::Taken);
    assert_eq!(full.unwrap_err(), "could not find a free filename");
}

#[test]
fn the_last_name_that_is_tried() {
    let last = format!("x_{RENAME_ATTEMPTS}.png");
    let r = rename_capture("x", None, |name: &String| {
        if *name == last {
            Probe::Free
        } else {
            Probe::Taken
        }
    });
    assert_eq!(new_name(r), last);
}

#[test]
fn renaming_to_the_same_name_keeps_it() {
    let r = rename_capture("x", Some("png".to_string()), |_| Probe::SameFile);
    assert!(matches!(r, Ok(Rename::Keep)));
}

#[test]
fn the_editor_opens_on_a_capture() {
    let target = open_editor("C:\\s\\a.png".to_string(), true, true).unwrap();
    let shown = editor_target(Some(&target), "00ff", Some(Theme::Dark)).unwrap();
    assert_eq!(shown.path, "C:\\s\\a.png");
    assert_eq!(shown.file_name, "a.png");
    assert_eq!(shown.image_url, "http://snipd.localhost/full?k=00ff");
    assert!(shown.reviewing);
    assert_eq!(shown.theme, Theme::Dark);
    assert_eq!(editor_target(Some(&target), "", None).unwrap().theme, Theme::System);
    assert_eq!(
        open_editor("a.png".to_string(), false, false).unwrap_err(),
        "a.png no longer exists"
    );
    assert_eq!(
        editor_target(None, "", None).unwrap_err(),
        "no capture is open in the editor"
    );
}

#[test]
fn queries_are_pairs() {
    assert_eq!(query_param("k=1", "k").as_deref(), Some("1"));
    assert_eq!(query_param("a&b=2&k=3=4&k=5", "k").as_deref(), Some("3=4"));
    assert_eq!(query_param("kk=1&K=2", "k"), None);
    assert_eq!(query_param("k", "k"), None);
    assert_eq!(query_param("k=", "k").as_deref(), Some(""));
    assert_eq!(query_param("", "k"), None);
}

fn served(path: &str, query: Option<&str>) -> (u16, Option<String>, Vec<u8>) {
    let r = serve_image(
        path,
        query,
        |key: &String| match key.as_str() {
            "p" => Some("/shots/a.PNG".to_string()),
            "j" => Some("/shots/b.jpg".to_string()),
            _ => None,
        },
        || Some(vec![1]),
        |_| Some(vec![2]),
        |file: &String| Some(file.as_bytes().to_vec()),
    );
    let mime = r.headers.iter().find(|h| h.0 == "Content-Type").map(|h| h.1.clone());
    (r.status, mime, r.body)
}

#[test]
fn pictures_are_served_by_key() {
    let jpeg = Some("image/jpeg".to_string());
    let png = Some("image/png".to_string());
    assert_eq!(served("/backdrop", None), (200, jpeg.clone(), vec![1]));
    assert_eq!(served("/thumb", Some("k=p")), (200, jpeg.clone(), vec![2]));
    assert_eq!(served("/full", Some("k=p")), (200, png, b"/shots/a.PNG".to_vec()));
    assert_eq!(served("/full", Some("k=j")), (200, jpeg, b"/shots/b.jpg".to_vec()));
}

#[test]
fn nothing_else_is_served() {
    for (path, query) in [
        ("/thumb", None),
        ("/thumb", Some("k=x")),
        ("/full", Some("k=../../secret")),
        ("/full", Some("j=p")),
        ("/etc/passwd", Some("k=p")),
    ] {
        assert_eq!(served(path, query), (404, None, Vec::new()));
    }
}

#[test]
fn answers_carry_their_headers() {
    let r = answer(Some(vec![7]), "image/png");
    assert_eq!(r.status, 200);
    assert_eq!(
        r.headers,
        vec![
            ("Content-Type".to_string(), "image/png".to_string()),
            ("Cache-Control".to_string(), "no-store".to_string()),
            ("Access-Control-Allow-Origin".to_string(), "*".to_string()),
        ]
    );
    assert_eq!(r.body, vec![7]);
}
