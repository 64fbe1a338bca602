use snipd::clock::LocalTime;
use snipd::config::{NamingMode, NamingSettings};
use snipd::naming::{
    choose_datetime, format_datetime, preview, resolve, sanitise_stem, NameRequest, ResolvedName,
    FALLBACK_STEM, MAX_ATTEMPTS, MAX_STEM_LEN,
};

/// A moment on 20 September 2026, two hours ahead of UTC.
fn at(h: i64, m: i64, s: i64) -> LocalTime {
    let midnight: i64 = 1_789_862_400;
    LocalTime::new(midnight + 3600 * h + 60 * m + s - 7200, 0, 7200).unwrap()
}

fn datetime_settings() -> NamingSettings {
    NamingSettings { mode: NamingMode::Datetime, ..Default::default() }
}

fn prefix_settings(prefix: &str, counter: u32) -> NamingSettings {
    NamingSettings {
        mode: NamingMode::Prefix,
        prefix: prefix.into(),
        counter,
        counter_padding: 3,
        ..Default::default()
    }
}

fn resolve_in(naming: &NamingSettings, taken_at: LocalTime, folder: &[String]) -> ResolvedName {
    resolve(
        NameRequest { naming, extension: "png", taken_at },
        at(23, 59, 58),
        |name: &String| folder.contains(name),
    )
}

#[test]
fn datetime_name_matches_the_documented_shape() {
    let s = datetime_settings();
    assert_eq!(preview(&s, "png", &at(14, 32, 5)), "Screenshot_2026-09-20_14-32-05.png");
}

#[test]
fn prefix_name_is_zero_padded() {
    let s = prefix_settings("MyShot", 1);
    assert_eq!(preview(&s, "png", &at(0, 0, 0)), "MyShot_001.png");
}

#[test]
fn counter_is_not_truncated_by_padding() {
    let s = prefix_settings("MyShot", 1000);
    assert_eq!(preview(&s, "png", &at(0, 0, 0)), "MyShot_1000.png");
}

#[test]
fn illegal_characters_are_replaced() {
    assert_eq!(sanitise_stem(r#"a<b>c:d"e/f\g|h?i*j"#), "a_b_c_d_e_f_g_h_i_j");
}

#[test]
fn trailing_dots_and_spaces_are_stripped() {
    // Windows would strip these itself, leaving the on-disk name different from
    // the recorded one.
    assert_eq!(sanitise_stem("report.  "), "report");
    assert_eq!(sanitise_stem("  spaced  "), "spaced");
}

#[test]
fn reserved_device_names_are_escaped() {
    assert_eq!(sanitise_stem("CON"), "CON_");
    assert_eq!(sanitise_stem("nul"), "nul_");
    // Reserved as a whole stem only, so this is left alone.
    assert_eq!(sanitise_stem("CONTROL"), "CONTROL");
}

#[test]
fn empty_prefix_falls_back() {
    assert_eq!(sanitise_stem("   "), FALLBACK_STEM);
    assert_eq!(sanitise_stem("///"), "___");
}

#[test]
fn overlong_stems_are_capped() {
    let long = "x".repeat(500);
    assert_eq!(sanitise_stem(&long).chars().count(), MAX_STEM_LEN);
}

#[test]
fn datetime_collision_within_one_second_disambiguates() {
    let mut folder: Vec<String> = Vec::new();
    let s = datetime_settings();

    let first = resolve_in(&s, at(14, 32, 5), &folder);
    assert_eq!(first.file_name, "Screenshot_2026-09-20_14-32-05.png");
    folder.push(first.file_name);

    let second = resolve_in(&s, at(14, 32, 5), &folder);
    assert_eq!(second.file_name, "Screenshot_2026-09-20_14-32-05_2.png");
}

#[test]
fn prefix_mode_skips_over_existing_files_instead_of_overwriting() {
    // Files the user copied in, or a counter that was reset.
    let folder = vec!["MyShot_001.png".to_string(), "MyShot_002.png".to_string()];

    let s = prefix_settings("MyShot", 1);
    let resolved = resolve_in(&s, at(0, 0, 0), &folder);

    assert_eq!(resolved.file_name, "MyShot_003.png");
    assert_eq!(resolved.counter_used, Some(3));
}

#[test]
fn resolve_never_returns_an_existing_path() {
    let mut folder: Vec<String> = Vec::new();
    let s = prefix_settings("Shot", 1);

    // Take 50 in a row, writing each one; every name has to be fresh.
    let mut counter = 1;
    for _ in 0..50 {
        let mut settings = s.clone();
        settings.counter = counter;
        let r = resolve_in(&settings, at(0, 0, 0), &folder);
        assert!(!folder.contains(&r.file_name), "resolve handed back an existing path");
        folder.push(r.file_name);
        counter = r.counter_used.unwrap() + 1;
    }

    assert_eq!(folder.len(), 50);
}

#[test]
fn invalid_datetime_pattern_does_not_panic() {
    let s = NamingSettings {
        mode: NamingMode::Datetime,
        // `%` before an unknown specifier is a classic bad pattern.
        datetime_pattern: "Shot_%Q%".into(),
        ..Default::default()
    };
    let name = preview(&s, "png", &at(14, 32, 5));
    assert!(name.ends_with(".png"), "got {name}");
}

#[test]
fn a_bad_pattern_becomes_the_default_one() {
    assert_eq!(
        format_datetime("Shot_%Q%", &at(14, 32, 5)),
        "Screenshot_2026-09-20_14-32-05"
    );
    assert_eq!(format_datetime("  ", &at(1, 2, 3)), "Screenshot_2026-09-20_01-02-03");
    assert_eq!(format_datetime("%H.%M", &at(1, 2, 3)), "01.02");
}

#[test]
fn a_formatted_moment_is_preferred() {
    assert_eq!(choose_datetime(Some("x".to_string()), "y".to_string()), "x");
    assert_eq!(choose_datetime(Some(" \t".to_string()), "y".to_string()), "y");
    assert_eq!(choose_datetime(None, "y".to_string()), "y");
}

#[test]
fn runs_of_white_space_become_one() {
    assert_eq!(sanitise_stem("a  b   c"), "a b c");
    assert_eq!(sanitise_stem("a\u{a0}\u{2003}b"), "a\u{a0}b");
}

#[test]
fn control_characters_are_replaced() {
    assert_eq!(sanitise_stem("a\u{1}b\u{7f}c"), "a_b_c");
    assert_eq!(sanitise_stem("a\tb"), "a_b");
}

#[test]
fn numbered_device_names_are_escaped() {
    assert_eq!(sanitise_stem("com1"), "com1_");
    assert_eq!(sanitise_stem("LPT9"), "LPT9_");
    assert_eq!(sanitise_stem("COM0"), "COM0");
    assert_eq!(sanitise_stem("COM10"), "COM10");
}

#[test]
fn capped_stems_end_in_nothing_that_is_dropped() {
    let mut raw = "y".repeat(MAX_STEM_LEN - 2);
    raw.push_str(". tail");
    assert_eq!(sanitise_stem(&raw), "y".repeat(MAX_STEM_LEN - 2));
}

#[test]
fn sanitised_stems_stay_as_they_are() {
    for raw in ["a<b", "CON", "   ", "x  y", "dots...", "nul.txt"] {
        let once = sanitise_stem(raw);
        assert_eq!(sanitise_stem(&once), once);
    }
}

#[test]
fn a_counter_of_zero_starts_at_one() {
    let s = prefix_settings("Shot", 0);
    let r = resolve_in(&s, at(0, 0, 0), &[]);
    assert_eq!(r.file_name, "Shot_001.png");
    assert_eq!(r.counter_used, Some(1));
}

#[test]
fn numbers_never_fall_back() {
    let taken = vec!["Shot_008.png".to_string()];
    let r = resolve_in(&prefix_settings("Shot", 8), at(0, 0, 0), &taken);
    assert_eq!(r.counter_used, Some(9));
}

#[test]
fn a_full_folder_gives_a_stamped_name() {
    let s = prefix_settings("Shot", 1);
    let r = resolve(
        NameRequest { naming: &s, extension: "png", taken_at: at(0, 0, 0) },
        LocalTime::new(1_789_862_400, 250_000_000, 0).unwrap(),
        |name: &String| name.len() == "Shot_000.png".len() || name.len() == "Shot_0000.png".len()
            || name == "Shot_10000.png",
    );
    assert_eq!(MAX_ATTEMPTS, 10_000);
    assert_eq!(r.file_name, "Shot_20260920-000000.250.png");
    assert_eq!(r.counter_used, None);
}

#[test]
fn a_taken_stamp_gets_a_number() {
    let s = datetime_settings();
    let r = resolve(
        NameRequest { naming: &s, extension: "jpg", taken_at: at(14, 32, 5) },
        LocalTime::new(1_789_862_400, 1_000_000, 0).unwrap(),
        |name: &String| !name.contains("_20260920-000000.001-2"),
    );
    assert_eq!(r.file_name, "Screenshot_2026-09-20_14-32-05_20260920-000000.001-2.jpg");
}

#[test]
fn the_highest_number_has_no_successor() {
    let s = prefix_settings("Shot", u32::MAX);
    let r = resolve_in(&s, at(0, 0, 0), &[]);
    assert_eq!(r.counter_used, None);
    assert_eq!(r.file_name, "Shot_20260920-235958.000.png");
}

#[test]
fn names_hold_nothing_that_windows_forbids() {
    let s = NamingSettings {
        mode: NamingMode::Datetime,
        datetime_pattern: "%Y/%m/%d %H:%M".into(),
        ..Default::default()
    };
    let name = resolve_in(&s, at(14, 32, 5), &[]).file_name;
    assert_eq!(name, "2026_09_20 14_32.png");
    let stamped = resolve(
        NameRequest { naming: &s, extension: "png", taken_at: at(14, 32, 5) },
        at(1, 2, 3),
        |name: &String| !name.contains("010203"),
    );
    assert_eq!(stamped.file_name, "2026_09_20 14_32_20260920-010203.000.png");
}
