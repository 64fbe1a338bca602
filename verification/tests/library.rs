use snipd::capture::pixels::{decode_capture, encode_capture, Image};
use snipd::capture::{CaptureKind, CaptureRecord};
use snipd::commands::apply_retention;
use snipd::config::{ImageFormat, RetentionSettings};
use snipd::history::{
    delete, expired, extension_of, file_name_of, format_of, guard, index_path, is_image, key_for,
    list, media_url, read_format, resolve_thumbnail_key, stats, thumbnail, thumbnail_dir, thumbnail_file,
    Change, FileFacts, HistoryIndex, HistoryPage, HistoryQuery, LibraryStats, ResolvedPath,
};
use snipd::keys::{thumbnail_key, KeyCache};

fn file(name: &str, modified_ms: u64) -> FileFacts {
    FileFacts {
        path: format!("/shots/{name}"),
        file_name: name.to_string(),
        is_file: true,
        modified_ms,
        bytes: 1,
    }
}

fn record(name: &str, taken_at: &str) -> CaptureRecord {
    CaptureRecord {
        id: "id".to_string(),
        path: format!("/shots/{name}"),
        file_name: name.to_string(),
        width: 640,
        height: 480,
        taken_at: taken_at.to_string(),
        kind: CaptureKind::Region,
        source: Some("Display 1".to_string()),
        bytes: 1,
        copied_to_clipboard: true,
        warnings: Vec::new(),
    }
}

fn list_of(query: &HistoryQuery, files: &Vec<FileFacts>) -> HistoryPage {
    let index = HistoryIndex::load_index(Vec::new());
    list(query, Some(files), &index, &mut KeyCache::new())
}

fn names(page: &HistoryPage) -> Vec<&str> {
    page.entries.iter().map(|e| e.file_name.as_str()).collect()
}

fn parts(path: &[&str]) -> Vec<String> {
    path.iter().map(|p| p.to_string()).collect()
}

#[test]
fn only_image_files_are_listed() {
    assert!(is_image("a/b/shot.png"));
    assert!(is_image("a/b/shot.JPG"));
    assert!(!is_image("a/b/notes.txt"));
    assert!(!is_image("a/b/no-extension"));
}

#[test]
fn thumbnail_key_changes_when_the_file_does() {
    let a = thumbnail_key(r"C:\shots\one.png", 1000);
    let b = thumbnail_key(r"C:\shots\one.png", 2000);
    assert_ne!(a, b, "an edited capture must not reuse its old thumbnail");
}

#[test]
fn thumbnail_key_ignores_path_casing() {
    assert_eq!(thumbnail_key(r"C:\Shots\One.png", 1), thumbnail_key(r"c:\shots\one.png", 1));
}

fn resolved(path: &[&str]) -> ResolvedPath {
    ResolvedPath { path: path.join("/"), parts: parts(path) }
}

/// Deletes a file from a disk that holds some.
fn delete_from(
    disk: &mut Vec<String>,
    target: &ResolvedPath,
    root: &[&str],
) -> Result<Option<String>, String> {
    let there = disk.contains(&target.path);
    let root = parts(root);
    let file = if there { Some(target) } else { None };
    let removal = delete(&target.path, file, Ok(&root), Some(7))?;
    disk.retain(|f| f != &removal.path);
    Ok(removal.thumbnail)
}

#[test]
fn delete_refuses_paths_outside_the_save_folder() {
    let victim = resolved(&["C:", "outside", "important.png"]);
    let mut disk = vec![victim.path.clone(), "C:/root/shot.png".to_string()];

    let result = delete_from(&mut disk, &victim, &["C:", "root"]);
    assert!(result.is_err(), "escaped the save folder");
    assert!(disk.contains(&victim.path), "the file was deleted anyway");
    assert_eq!(result.unwrap_err(), "refusing to delete a file outside the save folder");
}

#[test]
fn delete_removes_a_file_inside_the_save_folder() {
    let target = resolved(&["C:", "root", "shot.png"]);
    let mut disk = vec![target.path.clone(), "C:/root/other.png".to_string()];

    delete_from(&mut disk, &target, &["C:", "root"]).unwrap();
    assert!(!disk.contains(&target.path));
    assert_eq!(disk, vec!["C:/root/other.png"]);
}

#[test]
fn the_thumbnail_goes_with_its_capture() {
    let target = resolved(&["C:", "root", "shot.png"]);
    let root = parts(&["C:", "root"]);
    let removal = delete("C:/root/Shot.png", Some(&target), Ok(&root), Some(7)).unwrap();
    assert_eq!(removal.path, "C:/root/shot.png");
    let key = thumbnail_key("C:/root/Shot.png", 7);
    assert_eq!(removal.thumbnail.unwrap(), format!("{key}.jpg"));
    let unknown = delete("a.png", Some(&target), Ok(&root), None).unwrap();
    assert!(unknown.thumbnail.is_none());
    let gone = delete("a.png", None, Ok(&root), None).unwrap_err();
    assert_eq!(gone, "a.png no longer exists");
}

#[test]
fn listing_an_absent_folder_is_empty_not_an_error() {
    let index = HistoryIndex::load_index(Vec::new());
    let page = list(&HistoryQuery::default(), None, &index, &mut KeyCache::new());
    assert_eq!(page.total, 0);
}

#[test]
fn files_with_no_index_entry_still_appear() {
    let page = list_of(&HistoryQuery::default(), &vec![file("stray.png", 5)]);
    assert_eq!(page.total, 1);
    assert_eq!(page.entries[0].file_name, "stray.png");
    assert!(page.entries[0].kind.is_none());
}

#[test]
fn search_filters_by_filename() {
    let files = vec![file("invoice.png", 1), file("holiday.png", 2)];
    let query = HistoryQuery { search: Some("INVO".into()), ..Default::default() };
    let page = list_of(&query, &files);
    assert_eq!(page.total, 1);
    assert_eq!(page.entries[0].file_name, "invoice.png");
}

#[test]
fn paging_reports_the_unpaged_total() {
    let files: Vec<FileFacts> = (0..7).map(|i| file(&format!("shot{i}.png"), 1)).collect();
    let query = HistoryQuery { limit: Some(3), ..Default::default() };
    let page = list_of(&query, &files);
    assert_eq!(page.entries.len(), 3);
    assert_eq!(page.total, 7, "total must count matches, not the page");
}

#[test]
fn keys_are_exact() {
    assert_eq!(thumbnail_key("", 0), "a8c7f832281a39c5");
    assert_eq!(thumbnail_key(r"C:\shots\one.png", 1000), "9a25273a187d034d");
    assert_eq!(thumbnail_key("\u{c4}\u{d6}.png", 1_789_862_400_000), "713c27571cce5601");
    assert_eq!(key_for("/s/A.png", Some(5)).unwrap(), "9f29391f3d4ea26f");
    assert!(key_for("/s/A.png", None).is_none());
}

#[test]
fn keys_differ_from_one_millisecond_to_the_next() {
    let mut seen: Vec<String> = Vec::new();
    for ms in 1_789_862_400_000u64..1_789_862_400_200 {
        let key = thumbnail_key("/shots/a.png", ms);
        assert!(!seen.contains(&key));
        seen.push(key);
    }
}

#[test]
fn keys_of_times_far_apart_can_meet() {
    // The second time lies thousands of centuries after the first.
    let path = r"C:\shots\one.png";
    assert_eq!(
        thumbnail_key(path, 74_229_771_659_311),
        thumbnail_key(path, 65_941_177_150_330_586)
    );
    let stretch = 1u64 << 48;
    assert_ne!(thumbnail_key(path, 0), thumbnail_key(path, stretch - 1));
}

#[test]
fn losing_the_index_loses_no_capture() {
    let files = vec![file("a.png", 1), file("b.jpg", 2), file("c.mp4", 3)];
    let known = HistoryIndex::load_index(vec![Some(record("a.png", "2026-09-20T14:32:05Z"))]);
    let with = list(&HistoryQuery::default(), Some(&files), &known, &mut KeyCache::new());
    let without = list_of(&HistoryQuery::default(), &files);
    let mut before = names(&with);
    let mut after = names(&without);
    before.sort();
    after.sort();
    assert_eq!(before, vec!["a.png", "b.jpg"]);
    assert_eq!(before, after);
}

#[test]
fn pages_are_newest_first_and_follow_one_another() {
    let files: Vec<FileFacts> =
        [3u64, 9, 1, 7, 5].iter().map(|ms| file(&format!("s{ms}.png"), *ms)).collect();
    let all = list_of(&HistoryQuery::default(), &files);
    assert_eq!(names(&all), vec!["s9.png", "s7.png", "s5.png", "s3.png", "s1.png"]);
    let first = list_of(&HistoryQuery { limit: Some(2), ..Default::default() }, &files);
    assert_eq!(names(&first), vec!["s9.png", "s7.png"]);
    let rest = list_of(
        &HistoryQuery { offset: Some(2), limit: Some(9), ..Default::default() },
        &files,
    );
    assert_eq!(names(&rest), vec!["s5.png", "s3.png", "s1.png"]);
    let past = list_of(&HistoryQuery { offset: Some(8), ..Default::default() }, &files);
    assert_eq!(past.entries.len(), 0);
    assert_eq!(past.total, 5);
}

#[test]
fn captures_of_one_moment_keep_their_order() {
    let files = vec![file("b.png", 4), file("a.png", 4), file("c.png", 4)];
    let page = list_of(&HistoryQuery::default(), &files);
    assert_eq!(names(&page), vec!["b.png", "a.png", "c.png"]);
}

#[test]
fn times_bound_a_query() {
    let files: Vec<FileFacts> = (1..=5).map(|ms| file(&format!("s{ms}.png"), ms)).collect();
    let query = HistoryQuery { from_ms: Some(2), to_ms: Some(4), ..Default::default() };
    assert_eq!(names(&list_of(&query, &files)), vec!["s4.png", "s3.png", "s2.png"]);
}

#[test]
fn blank_searches_match_everything() {
    let files = vec![file("a.png", 1), file("b.png", 2)];
    let query = HistoryQuery { search: Some("  ".into()), ..Default::default() };
    assert_eq!(list_of(&query, &files).total, 2);
    let padded = HistoryQuery { search: Some(" A.P ".into()), ..Default::default() };
    assert_eq!(names(&list_of(&padded, &files)), vec!["a.png"]);
    let umlaut = vec![file("\u{dc}bersicht.png", 1)];
    let query = HistoryQuery { search: Some("\u{fc}BER".into()), ..Default::default() };
    assert_eq!(list_of(&query, &umlaut).total, 1);
}

#[test]
fn folders_and_other_files_are_left_out() {
    let folder = FileFacts { is_file: false, ..file("folder.png", 9) };
    let files = vec![folder, file("clip.mp4", 8), file("a.jpeg", 7)];
    assert_eq!(names(&list_of(&HistoryQuery::default(), &files)), vec!["a.jpeg"]);
}

#[test]
fn the_index_tells_more_of_a_capture() {
    let lines = vec![
        Some(record("a.png", "2026-09-20T14:32:05.250+02:00")),
        None,
        Some(record("b.png", "not a time")),
    ];
    let index = HistoryIndex::load_index(lines);
    let mut cache = KeyCache::new();
    let files = vec![file("A.png", 77), file("b.png", 78)];
    let page = list(&HistoryQuery::default(), Some(&files), &index, &mut cache);
    assert_eq!(names(&page), vec!["A.png", "b.png"]);
    let a = &page.entries[0];
    assert_eq!(a.taken_at_ms, 1_789_907_525_250);
    assert_eq!((a.width, a.height), (Some(640), Some(480)));
    assert_eq!(a.kind, Some(CaptureKind::Region));
    assert_eq!(a.source.as_deref(), Some("Display 1"));
    let key = thumbnail_key("/shots/A.png", 77);
    assert_eq!(a.thumbnail_url, format!("http://snipd.localhost/thumb?k={key}"));
    assert_eq!(a.full_url, media_url(&key));
    assert_eq!(page.entries[1].taken_at_ms, 78);
    // Both keys are known from here on.
    assert_eq!(cache.get(&key).as_deref(), Some("/shots/A.png"));
}

#[test]
fn moments_before_1970_count_as_its_start() {
    let index = HistoryIndex::load_index(vec![Some(record("a.png", "1969-01-01T00:00:00Z"))]);
    let files = vec![file("a.png", 9)];
    let page = list(&HistoryQuery::default(), Some(&files), &index, &mut KeyCache::new());
    assert_eq!(page.entries[0].taken_at_ms, 0);
}

#[test]
fn the_last_record_of_a_path_counts() {
    let mut newer = record("a.png", "2026-09-20T14:32:05Z");
    newer.width = 1;
    let index = HistoryIndex::load_index(vec![
        Some(record("a.png", "2026-09-19T14:32:05Z")),
        Some(newer),
        Some(record("b.png", "2026-09-19T14:32:05Z")),
    ]);
    assert_eq!(index.find("/SHOTS/a.png").unwrap().width, 1);
    assert!(index.find("/shots/c.png").is_none());
}

#[test]
fn every_capture_is_remembered_by_its_key() {
    let index = HistoryIndex::load_index(Vec::new());
    let mut cache = KeyCache::new();
    let files = vec![file("a.png", 1), file("notes.txt", 2)];
    let query = HistoryQuery { search: Some("zzz".into()), ..Default::default() };
    assert_eq!(list(&query, Some(&files), &index, &mut cache).total, 0);
    assert_eq!(cache.get(&thumbnail_key("/shots/a.png", 1)).as_deref(), Some("/shots/a.png"));
    assert!(cache.get(&thumbnail_key("/shots/notes.txt", 2)).is_none());
    assert!(cache.get("no key").is_none());
}

#[test]
fn a_key_leads_to_its_capture() {
    let mut cache = KeyCache::new();
    cache.remember("/shots/a.png", 1);
    let key = thumbnail_key("/shots/a.png", 1);
    let kept = resolve_thumbnail_key(
        &key,
        "/shots",
        '/',
        &mut cache,
        |_| Some(file("a.png", 1)),
        || panic!("the folder was looked through for nothing"),
    );
    assert_eq!(kept.as_deref(), Some("/shots/a.png"));
    // A file that is gone is looked for.
    let gone =
        resolve_thumbnail_key(&key, "/shots", '/', &mut cache, |_| None, || Some(Vec::new()));
    assert!(gone.is_none());
    let other = thumbnail_key("/shots/b.png", 4);
    let scanned = resolve_thumbnail_key(
        &other,
        "/shots",
        '/',
        &mut cache,
        |_| panic!("nothing is kept yet"),
        || Some(vec![file("x.txt", 4), file("b.png", 3), file("b.png", 4)]),
    );
    assert_eq!(scanned.as_deref(), Some("/shots/b.png"));
    assert_eq!(cache.get(&other).as_deref(), Some("/shots/b.png"));
    let none = resolve_thumbnail_key("../x", "/shots", '/', &mut cache, |_| None, || None);
    assert!(none.is_none());
}

#[test]
fn a_key_of_another_folder_leads_nowhere() {
    // Listed before the user chose another folder.
    let mut cache = KeyCache::new();
    let index = HistoryIndex::load_index(Vec::new());
    list(&HistoryQuery::default(), Some(&vec![file("a.png", 1)]), &index, &mut cache);
    let key = thumbnail_key("/shots/a.png", 1);
    let found = resolve_thumbnail_key(
        &key,
        "/elsewhere",
        '/',
        &mut cache,
        |_| Some(file("a.png", 1)),
        || Some(Vec::new()),
    );
    assert!(found.is_none());
    // A folder below the save folder is another folder too.
    cache.remember("/shots/deep/a.png", 1);
    let deep = FileFacts { path: "/shots/deep/a.png".into(), ..file("deep/a.png", 1) };
    let key = thumbnail_key("/shots/deep/a.png", 1);
    let found =
        resolve_thumbnail_key(&key, "/shots", '/', &mut cache, |_| Some(deep), || Some(Vec::new()));
    assert!(found.is_none());
}

#[test]
fn a_key_of_a_changed_file_leads_nowhere() {
    let mut cache = KeyCache::new();
    cache.remember("/shots/a.png", 1);
    let key = thumbnail_key("/shots/a.png", 1);
    let found = resolve_thumbnail_key(
        &key,
        "/shots",
        '/',
        &mut cache,
        |_| Some(file("a.png", 2)),
        || Some(vec![file("a.png", 2)]),
    );
    assert!(found.is_none());
}

#[test]
fn the_library_is_summed_up() {
    let large = FileFacts { bytes: u64::MAX - 1, ..file("large.png", 3) };
    let small = list_of(&HistoryQuery::default(), &vec![file("a.png", 1), file("b.png", 2)]);
    assert_eq!(stats(&small), LibraryStats { count: 2, bytes: 2 });
    let much = list_of(&HistoryQuery::default(), &vec![file("a.png", 1), large, file("c.png", 2)]);
    assert_eq!(stats(&much), LibraryStats { count: 3, bytes: u64::MAX });
}

#[test]
fn many_records_are_told_apart() {
    let lines: Vec<Option<CaptureRecord>> = (0..3000)
        .map(|i| {
            let mut r = record(&format!("s{}.png", i % 1500), "2026-09-20T14:32:05Z");
            r.width = i;
            Some(r)
        })
        .collect();
    let index = HistoryIndex::load_index(lines);
    for i in 0..1500u32 {
        assert_eq!(index.find(&format!("/shots/S{i}.PNG")).unwrap().width, 1500 + i);
    }
    assert!(index.find("/shots/s1500.png").is_none());
}

#[test]
fn names_and_extensions_of_paths() {
    assert_eq!(file_name_of(r"C:\shots\one.png"), "one.png");
    assert_eq!(file_name_of("a/b/c"), "c");
    assert_eq!(file_name_of("a/shot.png/"), "shot.png");
    assert_eq!(file_name_of("a/shot.png/./"), "shot.png");
    assert_eq!(file_name_of("a/.."), "");
    assert_eq!(file_name_of("."), "");
    assert_eq!(file_name_of("/"), "");
    assert_eq!(extension_of("a/shot.png/").as_deref(), Some("png"));
    assert_eq!(extension_of("a/..").as_deref(), None);
    assert_eq!(extension_of("a/b.").as_deref(), Some(""));
    assert_eq!(read_format("a/b.JFIF"), Some(ImageFormat::Jpeg));
    assert_eq!(read_format("a/b.jpg"), Some(ImageFormat::Jpeg));
    assert_eq!(read_format("a/b.apng"), Some(ImageFormat::Png));
    assert_eq!(read_format("a/b.png"), Some(ImageFormat::Png));
    assert_eq!(read_format("a/b.bmp"), None);
    assert_eq!(read_format("jfif"), None);
    assert_eq!(extension_of("a/b.c/d").as_deref(), None);
    assert_eq!(extension_of("a/.png").as_deref(), None);
    assert_eq!(extension_of("a/b.tar.gz").as_deref(), Some("gz"));
    assert_eq!(format_of("x.PNG"), Some(ImageFormat::Png));
    assert_eq!(format_of("x.jpeg"), Some(ImageFormat::Jpeg));
    assert_eq!(format_of("x.gif"), None);
}

#[test]
fn volumes_are_no_names() {
    assert!(!is_image("C:.png"));
    assert!(is_image("C:shot.png"));
    assert_eq!(file_name_of("C:shot.png"), "shot.png");
    assert_eq!(file_name_of("c:"), "");
    assert_eq!(file_name_of("1:shot.png"), "1:shot.png");
    assert!(!is_image(r"\\server\share.png"));
    assert!(!is_image("//server/share.png/"));
    assert_eq!(file_name_of(r"\\server\share\shot.png"), "shot.png");
    assert_eq!(file_name_of(r"\\server\share\."), "");
    // Without a server it is a plain path.
    assert_eq!(file_name_of(r"\\\shot.png"), "shot.png");
    assert_eq!(file_name_of(r"\\.\COM1.png"), "");
    assert_eq!(file_name_of(r"\\?\C:\shots\one.png"), "one.png");
    assert_eq!(extension_of(r"\\?\C:\shots\one.png").as_deref(), Some("png"));
    assert_eq!(file_name_of(r"\\?\C:"), "");
    assert_eq!(file_name_of(r"\\?\UNC\server\share.png"), "");
    assert_eq!(file_name_of(r"\\?\UNC\server\share\one.png"), "one.png");
    assert_eq!(file_name_of(r"\\?\volume.png"), "");
    // A slash is an ordinary character in a path that is taken word for word.
    assert_eq!(file_name_of(r"\\?\C:\a/b.png"), "a/b.png");
}

#[test]
fn files_of_the_library() {
    assert_eq!(index_path("/data", '/'), "/data/history.jsonl");
    assert_eq!(thumbnail_dir(r"C:\data", '\\'), r"C:\data\thumbs");
    assert_eq!(thumbnail_file("00ff"), "00ff.jpg");
    assert_eq!(media_url("00ff"), "http://snipd.localhost/full?k=00ff");
}

#[test]
fn thumbnails_are_kept_or_made() {
    let kept = thumbnail("a.png", ImageFormat::Png, Some(vec![1, 2]), || Err("no".to_string()));
    let kept = kept.unwrap();
    assert_eq!((kept.bytes, kept.is_new), (vec![1, 2], false));

    let image = Image::from_raw(1000, 500, vec![200; 4 * 1000 * 500]).unwrap();
    for format in [ImageFormat::Png, ImageFormat::Jpeg] {
        let bytes = encode_capture(&image, format, 90).unwrap();
        let made = thumbnail("a", format, None, || Ok(bytes)).unwrap();
        assert!(made.is_new);
        let small = decode_capture(&made.bytes, ImageFormat::Jpeg).unwrap();
        assert_eq!(small.dimensions(), (400, 200));
        assert!(small.get_pixel(7, 7)[0].abs_diff(200) <= 2);
    }
}

#[test]
fn thumbnails_of_long_pictures_are_exact() {
    // A white picture of sixteen bits for each channel, whose sums are large.
    let (width, height) = (102_800u32, 257u32);
    let white = vec![0xffffu16; width as usize * height as usize];
    let deep = image::ImageBuffer::<image::Luma<u16>, Vec<u16>>::from_raw(width, height, white);
    let mut file = std::io::Cursor::new(Vec::new());
    deep.unwrap().write_to(&mut file, image::ImageFormat::Png).unwrap();
    let file = file.into_inner();
    let made = thumbnail("a.png", ImageFormat::Png, None, || Ok(file)).unwrap();
    let small = decode_capture(&made.bytes, ImageFormat::Jpeg).unwrap();
    assert_eq!(small.dimensions(), (400, 1));
    assert!(small.get_pixel(200, 0)[0] >= 254);
}

#[test]
fn unreadable_captures_have_no_thumbnail() {
    let gone = thumbnail("a.png", ImageFormat::Png, None, || Err("gone".to_string()));
    assert_eq!(gone.unwrap_err(), "decoding a.png: gone");
    let bad = thumbnail("a.png", ImageFormat::Png, None, || Ok(vec![1, 2, 3])).unwrap_err();
    assert!(bad.starts_with("decoding a.png: "), "got {bad}");
}

#[test]
fn changes_keep_to_the_save_folder() {
    let root = parts(&["C:", "shots"]);
    let inner = parts(&["C:", "shots", "deep", "a.png"]);
    let near = parts(&["C:", "shots2", "a.png"]);
    for change in [Change::Delete, Change::Rename, Change::Write] {
        assert!(guard(change, "a", Some(&inner), Ok(&root)).is_ok());
    }
    assert_eq!(
        guard(Change::Delete, "a", Some(&near), Ok(&root)).unwrap_err(),
        "refusing to delete a file outside the save folder"
    );
    assert_eq!(
        guard(Change::Rename, "a", Some(&near), Ok(&root)).unwrap_err(),
        "refusing to rename a file outside the save folder"
    );
    assert_eq!(
        guard(Change::Write, "a", Some(&near), Ok(&root)).unwrap_err(),
        "refusing to write outside the save folder"
    );
    assert_eq!(
        guard(Change::Write, "a", None, Ok(&root)).unwrap_err(),
        "a no longer exists"
    );
    assert_eq!(
        guard(Change::Rename, "a", None, Err("offline".to_string())).unwrap_err(),
        "save folder is unavailable: offline"
    );
    assert_eq!(
        guard(Change::Delete, "a", None, Err("offline".to_string())).unwrap_err(),
        "a no longer exists"
    );
    assert_eq!(
        guard(Change::Delete, "a", Some(&inner), Err("offline".to_string())).unwrap_err(),
        "save folder is unavailable: offline"
    );
}

#[test]
fn captures_grow_old_after_their_days() {
    let day = 86_400_000u64;
    assert!(!expired(0, 30 * day, 30));
    assert!(expired(0, 30 * day + 1, 30));
    assert!(!expired(u64::MAX, 5, u32::MAX));
}

#[test]
fn nothing_is_removed_unless_asked() {
    let day = 86_400_000u64;
    let files = vec![file("old.png", day), file("new.png", 9 * day), file("older.png", 0)];
    let page = list_of(&HistoryQuery::default(), &files);
    let off = RetentionSettings { enabled: false, days: 1 };
    assert_eq!(apply_retention(&off, &page.entries, 10 * day), Vec::<usize>::new());
    let on = RetentionSettings { enabled: true, days: 5 };
    assert_eq!(names(&page), vec!["new.png", "old.png", "older.png"]);
    assert_eq!(apply_retention(&on, &page.entries, 10 * day), vec![1, 2]);
    assert_eq!(apply_retention(&RetentionSettings::default(), &page.entries, u64::MAX).len(), 0);
}
