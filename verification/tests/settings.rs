use snipd::clock::LocalTime;
use snipd::commands::update_settings;
use snipd::config::{
    config_path, data_directory, default_save_directory, join_path, quarantine_name, DirectoryStep, FileRead,
    ImageFormat, NamingMode, Settings, Theme, CONFIG_VERSION,
};

fn fresh() -> Settings {
    Settings::with_directory("/pictures/Snipd".to_string())
}

#[test]
fn a_fresh_installation_has_its_defaults() {
    let s = fresh();
    assert_eq!(s.version, CONFIG_VERSION);
    assert_eq!(s.format, ImageFormat::Png);
    assert_eq!(s.jpeg_quality, 92);
    assert_eq!(s.theme, Theme::System);
    assert_eq!(s.naming.mode, NamingMode::Datetime);
    assert_eq!(s.naming.datetime_pattern, "Screenshot_%Y-%m-%d_%H-%M-%S");
    assert_eq!((s.naming.counter, s.naming.counter_padding), (1, 3));
    assert!(s.clipboard.auto_copy);
    assert!(s.startup.launch_on_login && s.startup.start_minimised);
    assert!(s.window.close_to_tray);
    assert!(s.notifications.show_saved_toast);
    assert!(!s.retention.enabled);
    assert_eq!(s.retention.days, 30);
    assert_eq!((s.recording.fps, s.recording.scale_percent, s.recording.bitrate_mbps), (30, 100, 12));
    assert_eq!(s.shortcuts.capture, "CommandOrControl+Alt+S");
    assert_eq!(s.shortcuts.region, "CommandOrControl+Alt+3");
    assert_eq!(s.shortcuts.full_screen, "CommandOrControl+Alt+1");
    assert_eq!(s.shortcuts.active_window, "CommandOrControl+Alt+2");
}

fn broken() -> Settings {
    let mut s = fresh();
    s.version = 9;
    s.save_directory = String::new();
    s.jpeg_quality = 0;
    s.naming.counter = 0;
    s.naming.counter_padding = 99;
    s.naming.datetime_pattern = " \t".to_string();
    s.naming.prefix = String::new();
    s.retention.days = 0;
    s
}

#[test]
fn values_that_cannot_be_used_are_repaired() {
    let mut s = broken();
    s.normalise("/fallback");
    assert_eq!(s.version, CONFIG_VERSION);
    assert_eq!(s.save_directory, "/fallback");
    assert_eq!(s.jpeg_quality, 1);
    assert_eq!((s.naming.counter, s.naming.counter_padding), (1, 10));
    assert_eq!(s.naming.datetime_pattern, "Screenshot_%Y-%m-%d_%H-%M-%S");
    assert_eq!(s.naming.prefix, "Screenshot");
    assert_eq!(s.retention.days, 1);
    s.jpeg_quality = 101;
    s.naming.counter_padding = 0;
    s.normalise("/fallback");
    assert_eq!((s.jpeg_quality, s.naming.counter_padding), (100, 1));
}

#[test]
fn repairing_twice_changes_nothing() {
    let mut once = broken();
    once.normalise("/fallback");
    let mut twice = once.clone();
    twice.normalise("/elsewhere");
    assert_eq!(format!("{once:?}"), format!("{twice:?}"));
}

#[test]
fn good_values_are_kept() {
    let mut s = fresh();
    s.jpeg_quality = 55;
    s.naming.prefix = " x ".to_string();
    let before = format!("{s:?}");
    s.normalise("/elsewhere");
    assert_eq!(format!("{s:?}"), before);
}

#[test]
fn an_existing_configuration_wins() {
    let mut own = fresh();
    own.theme = Theme::Dark;
    let mut seed = fresh();
    seed.theme = Theme::Light;
    let start = Settings::load_or_seed(FileRead::Parsed(own), FileRead::Parsed(seed), "/d");
    assert_eq!(start.settings.theme, Theme::Dark);
    assert!(!start.quarantine && !start.consume_seed && !start.save);
}

#[test]
fn the_installer_is_asked_once() {
    let mut seed = broken();
    seed.theme = Theme::Light;
    let start = Settings::load_or_seed(FileRead::Absent, FileRead::Parsed(seed), "/d");
    assert_eq!(start.settings.theme, Theme::Light);
    assert_eq!(start.settings.save_directory, "/d");
    assert!(!start.quarantine && start.consume_seed && start.save);
}

#[test]
fn an_unreadable_configuration_is_put_aside() {
    let start = Settings::load_or_seed(FileRead::Unreadable, FileRead::Absent, "/d");
    assert!(start.quarantine && !start.consume_seed && start.save);
    assert_eq!(start.settings.save_directory, "/d");
    assert_eq!(start.settings.jpeg_quality, 92);
    let both = Settings::load_or_seed(FileRead::Unreadable, FileRead::Unreadable, "/d");
    assert!(both.quarantine && !both.consume_seed && both.save);
}

#[test]
fn an_unreadable_configuration_leaves_the_installer_alone() {
    let mut seed = fresh();
    seed.theme = Theme::Light;
    seed.jpeg_quality = 50;
    let start = Settings::load_or_seed(FileRead::Unreadable, FileRead::Parsed(seed), "/d");
    assert!(start.quarantine && !start.consume_seed && start.save);
    assert_eq!(start.settings.theme, Theme::System);
    assert_eq!(start.settings.jpeg_quality, 92);
    assert_eq!(start.settings.save_directory, "/d");
}

#[test]
fn the_defaults_are_for_want_of_answers() {
    let start = Settings::load_or_seed(FileRead::Absent, FileRead::Unreadable, "/d");
    assert!(!start.quarantine && !start.consume_seed && start.save);
    assert_eq!(start.settings.theme, Theme::System);
}

/// Makes directories one after the other, and gives which were made and what came
/// of it.
fn find_directory(
    s: &Settings,
    create: impl Fn(&str) -> Result<(), String>,
) -> (Vec<String>, Result<String, String>) {
    let mut tried = Vec::new();
    let mut made = Vec::new();
    loop {
        match s.ensure_save_directory("/fallback", &made) {
            DirectoryStep::Create(directory) => {
                made.push(create(&directory));
                tried.push(directory);
            }
            DirectoryStep::Use(directory) => return (tried, Ok(directory)),
            DirectoryStep::Fail(message) => return (tried, Err(message)),
        }
    }
}

#[test]
fn captures_go_where_they_can() {
    let s = fresh();
    let (tried, own) = find_directory(&s, |_| Ok(()));
    assert_eq!(tried, vec!["/pictures/Snipd"]);
    assert_eq!(own.unwrap(), "/pictures/Snipd");
    let (tried, other) = find_directory(&s, |d| {
        if d == "/fallback" {
            Ok(())
        } else {
            Err("offline".to_string())
        }
    });
    assert_eq!(tried, vec!["/pictures/Snipd", "/fallback"]);
    assert_eq!(other.unwrap(), "/fallback");
    let (tried, none) = find_directory(&s, |d| Err(format!("no {d}")));
    assert_eq!(tried.len(), 2);
    assert_eq!(
        none.unwrap_err(),
        "fallback save directory /fallback unusable: no /fallback"
    );
}

#[test]
fn folders_of_the_application() {
    let pictures = Some("/home/u/Pictures".to_string());
    let home = Some("/home/u".to_string());
    assert_eq!(
        default_save_directory(pictures, home.clone(), '/'),
        "/home/u/Pictures/Snipd"
    );
    assert_eq!(default_save_directory(None, home.clone(), '/'), "/home/u/Snipd");
    assert_eq!(default_save_directory(None, None, '\\'), ".\\Snipd");
    assert_eq!(data_directory(None, home, '/'), "/home/u/Snipd");
    assert_eq!(config_path("C:\\data\\", '\\'), "C:\\data\\config.json");
    assert_eq!(join_path("", "a", '/'), "a");
    assert_eq!(join_path("C:", "a", '\\'), "C:a");
    assert_eq!(join_path("ab", "a", '\\'), "ab\\a");
    assert_eq!(join_path("C:/x/", "a", '\\'), "C:/x/a");
}

#[test]
fn an_unreadable_configuration_gets_a_name() {
    let at = LocalTime::new(1_789_907_525, 0, 0).unwrap();
    assert_eq!(quarantine_name(&at), "config.corrupt-20260920-123205.json");
}

#[test]
fn new_settings_are_repaired_and_stored() {
    let mut current = fresh();
    let mut incoming = broken();
    incoming.theme = Theme::Dark;
    let done = update_settings(incoming, &mut current, "/d", |s| {
        assert_eq!(s.jpeg_quality, 1);
        assert_eq!(s.save_directory, "/d");
        Ok(())
    });
    assert!(done.is_ok());
    assert_eq!(current.theme, Theme::Dark);
    assert_eq!(current.naming.prefix, "Screenshot");
}

#[test]
fn settings_that_cannot_be_stored_change_nothing() {
    let mut current = fresh();
    let before = format!("{current:?}");
    let mut incoming = fresh();
    incoming.theme = Theme::Dark;
    let failed = update_settings(incoming, &mut current, "/d", |_| Err("read-only".to_string()));
    assert_eq!(failed.unwrap_err(), "read-only");
    assert_eq!(format!("{current:?}"), before);
}

#[test]
fn moments_have_bounds() {
    assert!(LocalTime::new(0, 1_000_000_000, 0).is_none());
    assert!(LocalTime::new(59, 1_999_999_999, 0).is_some());
    assert!(LocalTime::new(-1, 1_500_000_000, 0).is_some());
    assert!(LocalTime::new(59, 2_000_000_000, 0).is_none());
    assert!(LocalTime::new(0, 0, 86_400).is_none());
    assert!(LocalTime::new(0, 0, -86_399).is_some());
    assert!(LocalTime::new(8_210_266_876_800, 0, 0).is_none());
    assert!(LocalTime::new(8_210_266_876_799, 0, 86_399).is_some());
    assert!(LocalTime::new(-8_334_601_228_801, 0, 0).is_none());
    let first = LocalTime::new(-8_334_601_228_800, 0, -86_399).unwrap();
    assert!(first.format("%Y-%m-%d").is_some());
    assert!(!first.rfc3339().is_empty());
    let last = LocalTime::new(8_210_266_876_799, 999_999_999, 86_399).unwrap();
    assert!(last.format("%Y %H:%M:%S%.3f").is_some());
    assert!(!last.rfc3339().is_empty());
}

#[test]
fn moments_are_written_after_a_pattern() {
    let at = LocalTime::new(1_789_907_525, 7_000_000, -19_800).unwrap();
    assert_eq!(at.format("%Y/%m/%d %H:%M:%S %3f%.3f").unwrap(), "2026/09/20 07:02:05 007.007");
    assert_eq!(at.format("%Q"), None);
    assert_eq!(at.rfc3339(), "2026-09-20T07:02:05.007-05:30");
    assert_eq!(at.millis(), 1_789_907_525_007);
    let before = LocalTime::new(-1, 999_000_000, 0).unwrap();
    assert_eq!(before.millis(), -1);
}
