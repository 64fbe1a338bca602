//! What the user interface asks for.

use base64::engine::general_purpose::STANDARD;
use base64::Engine;
use vstd::prelude::*;
use vstd::string::*;

use crate::capture::pixels::{decode_any, decode_capture, Image, ImageView};
use crate::capture::win::{Bounds, Frame};
use crate::capture::{save_frame, CaptureKind, CaptureRecord, CaptureRequest, SaveSession};
use crate::clock::LocalTime;
use crate::config::{ImageFormat, RetentionSettings, Settings, Theme};
use crate::history::{
    expired, extension_of, file_name_of, gone_text, media_url, HistoryEntry,
};
use crate::naming::{resolve, sanitise_stem, NameRequest, ResolvedName};
use crate::record::RecordingRequest;
use crate::shortcuts::ImmediateMode;
use crate::text::{blank, chars_of, decimal_text, same, string_of, to_ascii_lower};

verus! {

// ---------------------------------------------------------------------------
// Starting and closing
// ---------------------------------------------------------------------------

/// What the program is started with when the user logs in.
pub const AUTOSTART_FLAG: &'static str = "--autostart";

/// Whether the program was started by logging in.
pub open spec fn is_autostart(args: Seq<String>) -> bool {
    exists|i: int| 0 <= i < args.len() && (#[trigger] args[i])@ == AUTOSTART_FLAG@
}

/// Whether the program was started by logging in.
pub fn autostarted(args: &Vec<String>) -> (r: bool)
    ensures
        r == is_autostart(args@),
        r <==> exists|i: int| 0 <= i < args@.len() && (#[trigger] args@[i])@ == "--autostart"@,
{
    let mut i: usize = 0;
    while i < args.len()
        invariant
            0 <= i <= args.len(),
            forall|k: int| 0 <= k < i ==> (#[trigger] args@[k])@ != AUTOSTART_FLAG@,
        decreases args.len() - i,
    {
        if same(args[i].as_str(), AUTOSTART_FLAG) {
            return true;
        }
        i += 1;
    }
    false
}

/// Whether the program starts without a window. Starting it by hand always shows
/// one.
pub fn starts_hidden(args: &Vec<String>, settings: &Settings) -> (r: bool)
    ensures
        r == (is_autostart(args@) && settings.startup.start_minimised),
        r <==> settings.startup.start_minimised && exists|i: int|
            0 <= i < args@.len() && (#[trigger] args@[i])@ == "--autostart"@,
{
    autostarted(args) && settings.startup.start_minimised
}

/// Whether closing a window hides it. Only the main window is ever hidden.
pub fn hides_on_close(label: &str, settings: &Settings) -> (r: bool)
    ensures
        r == (label@ == "main"@ && settings.window.close_to_tray),
{
    same(label, "main") && settings.window.close_to_tray
}

/// The command that adds or removes the entry that starts the program when the
/// user logs in.
pub open spec fn login_script(exe: Seq<char>, enabled: bool) -> Seq<char> {
    if enabled {
        "New-ItemProperty -Path 'HKCU:\\Software\\Microsoft\\Windows\\CurrentVersion\\Run' -Name 'Snipd' -Value '\""@
            + exe + "\" "@ + AUTOSTART_FLAG@ + "' -PropertyType String -Force | Out-Null"@
    } else {
        "Remove-ItemProperty -Path 'HKCU:\\Software\\Microsoft\\Windows\\CurrentVersion\\Run' -Name 'Snipd' -ErrorAction SilentlyContinue"@
    }
}

/// Writes that command, for the program at a path.
pub fn set_launch_on_login(exe: &str, enabled: bool) -> (r: String)
    ensures
        r@ == login_script(exe@, enabled),
{
    if enabled {
        let mut script: String =
            "New-ItemProperty -Path 'HKCU:\\Software\\Microsoft\\Windows\\CurrentVersion\\Run' -Name 'Snipd' -Value '\"".to_owned();
        script.append(exe);
        script.append("\" ");
        script.append(AUTOSTART_FLAG);
        script.append("' -PropertyType String -Force | Out-Null");
        script
    } else {
        "Remove-ItemProperty -Path 'HKCU:\\Software\\Microsoft\\Windows\\CurrentVersion\\Run' -Name 'Snipd' -ErrorAction SilentlyContinue".to_owned()
    }
}

// ---------------------------------------------------------------------------
// Settings
// ---------------------------------------------------------------------------

/// Whether storing settings of this content can come to this.
pub open spec fn stores<F: FnOnce(&Settings) -> Result<(), String>>(
    save: F,
    settings: crate::config::SettingsView,
    outcome: Result<(), String>,
) -> bool {
    exists|s: Settings| s@ == settings && #[trigger] save.ensures((&s,), outcome)
}

/// Replaces the settings with the ones that the user has made.
///
/// Values that could not be used are repaired first, an empty save directory by
/// `directory`. Where `save` cannot store them, everything stays as it was.
pub fn update_settings<F: FnOnce(&Settings) -> Result<(), String>>(
    incoming: Settings,
    current: &mut Settings,
    directory: &str,
    save: F,
) -> (r: Result<(), String>)
    requires
        forall|s: Settings| #[trigger] save.requires((&s,)),
    ensures
        stores(save, crate::config::normalised(incoming@, directory@), r),
        final(current)@ == match r {
            Ok(_) => crate::config::normalised(incoming@, directory@),
            Err(_) => old(current)@,
        },
{
    let mut repaired: Settings = incoming;
    repaired.normalise(directory);
    let outcome: Result<(), String> = save(&repaired);
    assert(stores(save, repaired@, outcome));
    if outcome.is_ok() {
        *current = repaired;
    }
    outcome
}

// ---------------------------------------------------------------------------
// Captures
// ---------------------------------------------------------------------------

/// What is captured at once.
pub fn capture_immediate(mode: ImmediateMode) -> (r: CaptureRequest)
    ensures
        match mode {
            ImmediateMode::FullScreen => r matches CaptureRequest::FullScreen { monitor_id }
                && monitor_id is None,
            ImmediateMode::ActiveWindow => r is ActiveWindow,
        },
{
    match mode {
        ImmediateMode::FullScreen => CaptureRequest::FullScreen { monitor_id: None },
        ImmediateMode::ActiveWindow => CaptureRequest::ActiveWindow,
    }
}

/// What the user is told of a saved capture, or nothing where they do not want to
/// be told.
pub fn announce_capture(record: &CaptureRecord, settings: &Settings) -> (r: Option<
    (String, String),
>)
    ensures
        match r {
            Some(toast) => {
                &&& settings.notifications.show_saved_toast
                &&& toast.0@ == "Screenshot saved"@
                &&& toast.1@ == record.file_name@ + "  \u{b7}  "@ + crate::text::decimal(
                    record.width as nat,
                ) + " x "@ + crate::text::decimal(record.height as nat)
            },
            None => !settings.notifications.show_saved_toast,
        },
{
    if !settings.notifications.show_saved_toast {
        return None;
    }
    let mut body: String = record.file_name.clone();
    body.append("  \u{b7}  ");
    body.append(decimal_text(record.width as u64).as_str());
    body.append(" x ");
    body.append(decimal_text(record.height as u64).as_str());
    Some(("Screenshot saved".to_owned(), body))
}

/// The places of the captures that are kept no longer, in their order, among the
/// first `n`. None are where the user has not asked for it.
pub open spec fn outdated(
    retention: &RetentionSettings,
    entries: Seq<HistoryEntry>,
    now_ms: u64,
    n: int,
) -> Seq<usize>
    decreases n,
{
    if n <= 0 || !retention.enabled {
        seq![]
    } else if crate::history::is_expired(entries[n - 1].taken_at_ms, now_ms, retention.days) {
        outdated(retention, entries, now_ms, n - 1).push((n - 1) as usize)
    } else {
        outdated(retention, entries, now_ms, n - 1)
    }
}

/// The captures to remove because they are older than the user keeps them, by
/// their places in the list.
pub fn apply_retention(
    retention: &RetentionSettings,
    entries: &Vec<HistoryEntry>,
    now_ms: u64,
) -> (r: Vec<usize>)
    ensures
        r@ == outdated(retention, entries@, now_ms, entries@.len() as int),
        !retention.enabled ==> r.len() == 0,
        forall|k: int|
            0 <= k < r.len() ==> retention.enabled && (#[trigger] r@[k]) < entries.len() && now_ms
                - entries@[r@[k] as int].taken_at_ms > retention.days * 86_400_000,
        forall|i: int|
            #![trigger entries@[i]]
            0 <= i < entries.len() && retention.enabled && now_ms - entries@[i].taken_at_ms
                > retention.days * 86_400_000 ==> r@.contains(i as usize),
{
    let mut places: Vec<usize> = Vec::new();
    if !retention.enabled {
        return places;
    }
    let mut i: usize = 0;
    while i < entries.len()
        invariant
            retention.enabled,
            i <= entries@.len(),
            places@ == outdated(retention, entries@, now_ms, i as int),
        decreases entries@.len() - i,
    {
        if expired(entries[i].taken_at_ms, now_ms, retention.days) {
            places.push(i);
        }
        i += 1;
    }
    proof {
        let n = entries@.len() as int;
        assert forall|k: int| 0 <= k < places.len() implies retention.enabled && (
        #[trigger] places@[k]) < entries.len() && now_ms - entries@[places@[k] as int].taken_at_ms
            > retention.days * 86_400_000 by {
            lemma_outdated(retention, entries@, now_ms, n, places@[k]);
            assert(places@.contains(places@[k]));
        }
        assert forall|i: int|
            #![trigger entries@[i]]
            0 <= i < entries.len() && retention.enabled && now_ms - entries@[i].taken_at_ms
                > retention.days * 86_400_000 implies places@.contains(i as usize) by {
            lemma_outdated(retention, entries@, now_ms, n, i as usize);
        }
    }
    places
}

/// The settings after a number was used.
pub open spec fn numbered(
    settings: crate::config::SettingsView,
    used: Option<u32>,
) -> crate::config::SettingsView {
    match used {
        Some(n) => crate::config::SettingsView {
            naming: crate::config::NamingView {
                counter: crate::capture::number_after(n),
                ..settings.naming
            },
            ..settings
        },
        None => settings,
    }
}

/// Moves the counter of the settings past a number that was used.
fn take_number(settings: &mut Settings, used: Option<u32>)
    ensures
        final(settings)@ == numbered(old(settings)@, used),
{
    if let Some(n) = used {
        settings.naming.counter = if n == u32::MAX {
            n
        } else {
            n + 1
        };
    }
}

/// A recording that can start.
pub struct RecordingStart {
    pub request: RecordingRequest,
    /// The folder that it goes to.
    pub directory: String,
    pub name: ResolvedName,
}

/// Names a recording of an area and says how it is made, where none is running yet
/// and there is a folder for it.
///
/// The user's settings decide the rate, the size and the bits. Recordings and
/// captures share one counter, so that their numbers go on from one another. `probe`
/// says whether a file of a name is there already, and `now`
/// is the present moment.
pub fn start_recording<P: Fn(&String) -> bool>(
    bounds: Bounds,
    is_recording: bool,
    directory: Result<String, String>,
    settings: &mut Settings,
    taken_at: LocalTime,
    now: LocalTime,
    probe: P,
) -> (r: Result<RecordingStart, String>)
    requires
        forall|s: String| probe.requires((&s,)),
    ensures
        match r {
            Ok(found) => {
                &&& !is_recording
                &&& directory == Ok::<String, String>(found.directory)
                &&& found.request == (RecordingRequest {
                    bounds,
                    fps: old(settings)@.recording.fps,
                    scale_percent: old(settings)@.recording.scale_percent,
                    bitrate_mbps: old(settings)@.recording.bitrate_mbps,
                })
                &&& crate::naming::is_resolved(
                    probe,
                    old(settings)@.naming,
                    crate::naming::stem_of(old(settings)@.naming, &taken_at),
                    crate::naming::stamp_of(&now),
                    "mp4"@,
                    found.name,
                )
                &&& final(settings)@ == numbered(old(settings)@, found.name.counter_used)
            },
            Err(e) => {
                &&& final(settings)@ == old(settings)@
                &&& if is_recording {
                    e@ == "a recording is already in progress"@
                } else {
                    directory == Err::<String, String>(e)
                }
            },
        },
{
    if is_recording {
        return Err("a recording is already in progress".to_owned());
    }
    let folder: String = match directory {
        Ok(folder) => folder,
        Err(e) => {
            return Err(e);
        },
    };
    let name: ResolvedName = resolve(
        NameRequest { naming: &settings.naming, extension: "mp4", taken_at },
        now,
        probe,
    );
    take_number(settings, name.counter_used);
    let request: RecordingRequest = RecordingRequest {
        bounds,
        fps: settings.recording.fps,
        scale_percent: settings.recording.scale_percent,
        bitrate_mbps: settings.recording.bitrate_mbps,
    };
    Ok(RecordingStart { request, directory: folder, name })
}

/// A recording can be stopped where one is running.
pub fn stop_recording(is_recording: bool) -> (r: Result<(), String>)
    ensures
        match r {
            Ok(_) => is_recording,
            Err(e) => !is_recording && e@ == "nothing is recording"@,
        },
{
    if !is_recording {
        return Err("nothing is recording".to_owned());
    }
    Ok(())
}

// ---------------------------------------------------------------------------
// Edited captures
// ---------------------------------------------------------------------------

/// The bytes that `base64`'s standard engine decodes from a text, or the words of
/// the error.
pub uninterp spec fn base64_bytes(text: Seq<char>) -> Result<Seq<u8>, Seq<char>>;

/// `base64::Engine::decode` of the standard engine, on the text's UTF-8 bytes.
///
/// The result depends on the text alone.
#[verifier::external_body]
fn decode_base64(text: &str) -> (r: Result<Vec<u8>, String>)
    ensures
        crate::capture::pixels::bytes_view(r) == base64_bytes(text@),
{
    STANDARD.decode(text.as_bytes()).map_err(|e| e.to_string())
}

/// The bytes of an edited image.
pub open spec fn edited_bytes(png: Seq<char>) -> Result<Seq<u8>, Seq<char>> {
    crate::capture::pixels::with_prefix(
        base64_bytes(png),
        "the edited image was not valid base64: "@,
    )
}

/// Decodes the bytes of an edited image.
pub fn decode_edit(png: &str) -> (r: Result<Vec<u8>, String>)
    ensures
        crate::capture::pixels::bytes_view(r) == edited_bytes(png@),
        match base64_bytes(png@) {
            Ok(bytes) => r is Ok && r->Ok_0@ == bytes,
            Err(why) => r is Err && r->Err_0@ == "the edited image was not valid base64: "@ + why,
        },
{
    match decode_base64(png) {
        Ok(bytes) => Ok(bytes),
        Err(e) => {
            let mut message: String = "the edited image was not valid base64: ".to_owned();
            message.append(e.as_str());
            Err(message)
        },
    }
}

/// A picture, or what is said where there is none.
pub open spec fn edited_picture(read: Result<ImageView, Seq<char>>) -> Result<
    ImageView,
    Seq<char>,
> {
    match read {
        Ok(image) => Ok(image),
        Err(e) => Err("the edited image could not be decoded: "@ + e),
    }
}

/// Whether this is what is said where an edited image holds no picture.
pub open spec fn is_unreadable_edit(words: Seq<char>) -> bool {
    exists|why: Seq<char>| words == #[trigger] ("the edited image could not be decoded: "@ + why)
}

/// Reads the picture in the bytes of an edited image.
pub fn read_edit(bytes: &Vec<u8>) -> (r: Result<Image, String>)
    ensures
        r matches Ok(image) ==> image@.is_image(),
        crate::capture::pixels::has_png_signature(bytes@) ==> crate::capture::pixels::image_view(r)
            == edited_picture(crate::capture::pixels::png_picture(bytes@)),
        crate::capture::pixels::has_jpeg_signature(bytes@) ==> crate::capture::pixels::image_view(
            r,
        ) == edited_picture(crate::capture::pixels::jpeg_picture(bytes@)),
        r matches Err(e) ==> is_unreadable_edit(e@),
{
    match decode_any(bytes) {
        Ok(image) => Ok(image),
        Err(e) => {
            let mut message: String = "the edited image could not be decoded: ".to_owned();
            message.append(e.as_str());
            assert(message@ == "the edited image could not be decoded: "@ + e@);
            Err(message)
        },
    }
}

/// Reads an edited image.
pub fn decode_edited(png: &str) -> (r: Result<Image, String>)
    ensures
        match edited_bytes(png@) {
            Ok(bytes) => {
                &&& r matches Ok(image) ==> image@.is_image()
                &&& crate::capture::pixels::has_png_signature(bytes)
                    ==> crate::capture::pixels::image_view(r) == edited_picture(
                    crate::capture::pixels::png_picture(bytes),
                )
                &&& crate::capture::pixels::has_jpeg_signature(bytes)
                    ==> crate::capture::pixels::image_view(r) == edited_picture(
                    crate::capture::pixels::jpeg_picture(bytes),
                )
                &&& r matches Err(e) ==> is_unreadable_edit(e@)
            },
            Err(e) => r matches Err(words) && words@ == e,
        },
{
    match decode_edit(png) {
        Ok(bytes) => read_edit(&bytes),
        Err(e) => Err(e),
    }
}

/// Starts to save an edited image as a capture of its own, so that the one it was
/// made of stays as it is. The frame comes back for the clipboard.
///
/// `probe`, `locate` and `now` are those of [`save_frame`].
pub fn save_edited<P: Fn(&String) -> bool, L: Fn(&String) -> String>(
    png: &str,
    settings: &Settings,
    directory: &str,
    taken_at: LocalTime,
    now: LocalTime,
    probe: P,
    locate: L,
) -> (r: Result<(Frame, SaveSession), String>)
    requires
        forall|s: String| probe.requires((&s,)),
        forall|s: String| locate.requires((&s,)),
    ensures
        match edited_bytes(png@) {
            Ok(bytes) => {
                &&& crate::capture::pixels::has_png_signature(bytes) ==> is_edit_saved(
                    crate::capture::pixels::png_picture(bytes),
                    settings@,
                    directory@,
                    &taken_at,
                    &now,
                    probe,
                    locate,
                    r,
                )
                &&& crate::capture::pixels::has_jpeg_signature(bytes) ==> is_edit_saved(
                    crate::capture::pixels::jpeg_picture(bytes),
                    settings@,
                    directory@,
                    &taken_at,
                    &now,
                    probe,
                    locate,
                    r,
                )
                &&& exists|read: Result<ImageView, Seq<char>>|
                    is_reading(read) && #[trigger] is_edit_saved(
                        read,
                        settings@,
                        directory@,
                        &taken_at,
                        &now,
                        probe,
                        locate,
                        r,
                    )
            },
            Err(why) => r matches Err(words) && words@ == why,
        },
        r matches Ok(begun) ==> (settings.format is Png && begun.0.image@.pixels.len()
            <= crate::capture::pixels::READER_LIMIT ==> crate::capture::pixels::shows(
            crate::capture::pixels::png_picture(begun.1.content@),
            begun.0.image@,
        )),
{
    let image: Image = match decode_edited(png) {
        Ok(image) => image,
        Err(e) => {
            let r: Result<(Frame, SaveSession), String> = Err(e);
            proof {
                if edited_bytes(png@) is Ok {
                    let why = choose|why: Seq<char>| e@ == #[trigger] (
                    "the edited image could not be decoded: "@ + why);
                    assert(is_edit_saved(
                        Err(why),
                        settings@,
                        directory@,
                        &taken_at,
                        &now,
                        probe,
                        locate,
                        r,
                    ));
                }
            }
            return r;
        },
    };
    let ghost read: Result<ImageView, Seq<char>> = Ok(image@);
    let r: Result<(Frame, SaveSession), String> = save_picture(
        image,
        settings,
        directory,
        taken_at,
        now,
        probe,
        locate,
    );
    assert(is_reading(read) && is_edit_saved(
        read,
        settings@,
        directory@,
        &taken_at,
        &now,
        probe,
        locate,
        r,
    ));
    r
}

/// Whether this can come of reading bytes: a picture with all its pixels, or words.
pub open spec fn is_reading(read: Result<ImageView, Seq<char>>) -> bool {
    read matches Ok(image) ==> image.is_image()
}

/// Whether `r` is the start of saving the picture that was read as an edited capture,
/// or tells why it cannot be saved.
pub open spec fn is_edit_saved<P: Fn(&String) -> bool, L: Fn(&String) -> String>(
    read: Result<ImageView, Seq<char>>,
    settings: crate::config::SettingsView,
    directory: Seq<char>,
    taken_at: &LocalTime,
    now: &LocalTime,
    probe: P,
    locate: L,
    r: Result<(Frame, SaveSession), String>,
) -> bool {
    match read {
        Ok(image) => match r {
            Ok(begun) => {
                &&& crate::capture::pixels::encodable(image.width, image.height, settings.format)
                &&& begun.0.image@ == image
                &&& begun.0.origin == (0i32, 0i32)
                &&& crate::capture::is_saving(
                    &begun.0,
                    CaptureKind::Edited,
                    Some("Edited"@),
                    settings,
                    directory,
                    taken_at,
                    now,
                    probe,
                    locate,
                    begun.1,
                )
                &&& crate::naming::all_legal(begun.1@.record.file_name)
            },
            Err(words) => {
                &&& !crate::capture::pixels::encodable(image.width, image.height, settings.format)
                &&& crate::capture::pixels::capture_file(
                    image,
                    settings.format,
                    settings.jpeg_quality,
                ) == Err::<Seq<u8>, Seq<char>>(words@)
            },
        },
        Err(why) => r matches Err(words) && words@ == "the edited image could not be decoded: "@
            + why,
    }
}

/// Starts to save a picture as an edited capture.
pub fn save_picture<P: Fn(&String) -> bool, L: Fn(&String) -> String>(
    image: Image,
    settings: &Settings,
    directory: &str,
    taken_at: LocalTime,
    now: LocalTime,
    probe: P,
    locate: L,
) -> (r: Result<(Frame, SaveSession), String>)
    requires
        forall|s: String| probe.requires((&s,)),
        forall|s: String| locate.requires((&s,)),
    ensures
        is_edit_saved(
            Ok(image@),
            settings@,
            directory@,
            &taken_at,
            &now,
            probe,
            locate,
            r,
        ),
        r matches Ok(begun) ==> (settings.format is Png && image@.pixels.len()
            <= crate::capture::pixels::READER_LIMIT ==> crate::capture::pixels::shows(
            crate::capture::pixels::png_picture(begun.1.content@),
            image@,
        )),
{
    let frame: Frame = Frame { image, origin: (0, 0) };
    match save_frame(
        &frame,
        CaptureKind::Edited,
        Some("Edited".to_owned()),
        settings,
        directory,
        taken_at,
        now,
        probe,
        locate,
    ) {
        Ok(session) => Ok((frame, session)),
        Err(e) => Err(e),
    }
}

/// Reads a saved capture for the clipboard. `path` is what an error calls it.
pub fn copy_capture(bytes: &Vec<u8>, format: ImageFormat, path: &str) -> (r: Result<Image, String>)
    ensures
        r matches Ok(image) ==> image@.is_image(),
        crate::capture::pixels::image_view(r) == match crate::capture::pixels::picture_in(
            bytes@,
            format,
        ) {
            Ok(image) => Ok(image),
            Err(e) => Err("could not read "@ + path@ + ": "@ + e),
        },
        match if format is Png {
            crate::capture::pixels::png_picture(bytes@)
        } else {
            crate::capture::pixels::jpeg_picture(bytes@)
        } {
            Ok(image) => r is Ok && r->Ok_0@ == image,
            Err(e) => r is Err && r->Err_0@ == "could not read "@ + path@ + ": "@ + e,
        },
{
    match decode_capture(bytes, format) {
        Ok(image) => Ok(image),
        Err(e) => {
            let mut message: String = "could not read ".to_owned();
            message.append(path);
            message.append(": ");
            message.append(e.as_str());
            assert(message@ == "could not read "@ + path@ + ": "@ + e@);
            Err(message)
        },
    }
}

/// The name that an edited capture is to have, where one was given.
pub fn apply_edit(new_name: Option<String>) -> (r: Option<String>)
    ensures
        match new_name {
            Some(name) => if crate::text::is_blank(name@) {
                r is None
            } else {
                r == Some(name)
            },
            None => r is None,
        },
{
    match new_name {
        Some(name) => {
            if blank(name.as_str()) {
                None
            } else {
                Some(name)
            }
        },
        None => None,
    }
}

// ---------------------------------------------------------------------------
// Renaming
// ---------------------------------------------------------------------------

/// What is there under a name.
#[derive(Debug, Clone, Copy, PartialEq, Eq, Structural)]
pub enum Probe {
    /// Nothing.
    Free,
    /// Another file.
    Taken,
    /// The file that is being renamed.
    SameFile,
}

/// What to do to a file that is being renamed.
#[derive(Debug)]
pub enum Rename {
    /// Nothing: it has its name already.
    Keep,
    /// Give it this name.
    To(String),
}

/// How many names are tried.
pub const RENAME_ATTEMPTS: u32 = 999;

/// The name that is tried at place `k`, counted from zero.
pub open spec fn rename_candidate(stem: Seq<char>, extension: Seq<char>, k: int) -> Seq<char> {
    if k == 0 {
        crate::naming::dotted(stem, extension)
    } else {
        crate::naming::dotted(stem + "_"@ + crate::text::decimal((k + 1) as nat), extension)
    }
}

/// Whether asking what is there under a name can give this answer.
pub open spec fn probes<F: Fn(&String) -> Probe>(
    probe: F,
    name: Seq<char>,
    answer: Probe,
) -> bool {
    exists|s: String| s@ == name && #[trigger] probe.ensures((&s,), answer)
}

/// Whether the names up to `k` were all found taken by other files.
pub open spec fn renames_taken<F: Fn(&String) -> Probe>(
    probe: F,
    stem: Seq<char>,
    extension: Seq<char>,
    k: int,
) -> bool {
    forall|j: int|
        0 <= j < k ==> probes(probe, #[trigger] rename_candidate(stem, extension, j), Probe::Taken)
}

/// Whether the name at place `k` is the first that no other file has, and this is
/// what is there.
pub open spec fn is_first_open<F: Fn(&String) -> Probe>(
    probe: F,
    stem: Seq<char>,
    extension: Seq<char>,
    k: int,
    answer: Probe,
) -> bool {
    &&& 0 <= k < RENAME_ATTEMPTS
    &&& renames_taken(probe, stem, extension, k)
    &&& probes(probe, rename_candidate(stem, extension, k), answer)
}

/// Whether `r` is what comes of looking for a name.
pub open spec fn is_renamed<F: Fn(&String) -> Probe>(
    probe: F,
    stem: Seq<char>,
    extension: Seq<char>,
    r: Result<Rename, String>,
) -> bool {
    match r {
        Ok(Rename::To(name)) => exists|k: int|
            {
                &&& #[trigger] is_first_open(probe, stem, extension, k, Probe::Free)
                &&& name@ == rename_candidate(stem, extension, k)
            },
        Ok(Rename::Keep) => exists|k: int| #[trigger]
            is_first_open(probe, stem, extension, k, Probe::SameFile),
        Err(e) => {
            &&& renames_taken(probe, stem, extension, RENAME_ATTEMPTS as int)
            &&& e@ == "could not find a free filename"@
        },
    }
}

/// The extension that a renamed file keeps.
pub open spec fn kept_extension(extension: Option<String>) -> Seq<char> {
    match extension {
        Some(extension) => extension@,
        None => "png"@,
    }
}

/// Finds the name for a file that is being renamed.
///
/// The first name that no other file has is taken, and where that is the file's
/// own it stays as it is. `probe` says what is there under a name. A name that is
/// given is one that Windows accepts, where it accepts the extension.
pub fn rename_capture<F: Fn(&String) -> Probe>(
    new_name: &str,
    extension: Option<String>,
    probe: F,
) -> (r: Result<Rename, String>)
    requires
        forall|s: String| probe.requires((&s,)),
    ensures
        is_renamed(probe, crate::naming::sanitised(new_name@), kept_extension(extension), r),
        r matches Ok(Rename::To(name)) ==> (crate::naming::all_legal(kept_extension(extension))
            ==> crate::naming::all_legal(name@)),
{
    let stem: String = sanitise_stem(new_name);
    let ext: String = match extension {
        Some(extension) => extension,
        None => "png".to_owned(),
    };
    let mut k: u32 = 0;
    while k < RENAME_ATTEMPTS
        invariant
            forall|s: String| probe.requires((&s,)),
            stem@ == crate::naming::sanitised(new_name@),
            ext@ == kept_extension(extension),
            renames_taken(probe, stem@, ext@, k as int),
        decreases RENAME_ATTEMPTS - k,
    {
        let mut name: String = stem.clone();
        if k > 0 {
            name.append("_");
            name.append(decimal_text(k as u64 + 1).as_str());
        }
        name.append(".");
        name.append(ext.as_str());
        assert(name@ == rename_candidate(stem@, ext@, k as int));
        let answer: Probe = probe(&name);
        assert(probes(probe, name@, answer));
        match answer {
            Probe::Free => {
                assert(is_first_open(probe, stem@, ext@, k as int, Probe::Free));
                proof {
                    let n = (k + 1) as nat;
                    crate::naming::sanitised_stems_are_usable(new_name@);
                    if crate::naming::all_legal(ext@) {
                        crate::naming::lemma_number_legal(n, 0);
                        crate::naming::lemma_dotted_legal(
                            stem@,
                            crate::text::decimal(n),
                            ext@,
                        );
                    }
                }
                return Ok(Rename::To(name));
            },
            Probe::SameFile => {
                assert(is_first_open(probe, stem@, ext@, k as int, Probe::SameFile));
                return Ok(Rename::Keep);
            },
            Probe::Taken => {},
        }
        k += 1;
    }
    Err("could not find a free filename".to_owned())
}

// ---------------------------------------------------------------------------
// The editor
// ---------------------------------------------------------------------------

/// The label of the editor's window.
pub const EDITOR_LABEL: &'static str = "editor";

/// What the editor was opened on.
#[derive(Debug)]
pub struct EditTarget {
    pub path: String,
    /// Whether the capture was taken just now, so that saving changes it.
    pub reviewing: bool,
}

/// What the editor needs to show itself.
#[derive(Debug)]
pub struct EditorTarget {
    pub path: String,
    pub file_name: String,
    pub image_url: String,
    pub reviewing: bool,
    pub theme: Theme,
}

/// Opens the editor on a capture that is there.
pub fn open_editor(path: String, exists_now: bool, reviewing: bool) -> (r: Result<
    EditTarget,
    String,
>)
    ensures
        match r {
            Ok(target) => exists_now && target.path == path && target.reviewing == reviewing,
            Err(e) => !exists_now && e@ == crate::history::gone_message(path@),
        },
        r matches Err(e) ==> e@ == path@ + " no longer exists"@,
{
    if !exists_now {
        return Err(gone_text(path.as_str()));
    }
    Ok(EditTarget { path, reviewing })
}

/// What the editor shows. `key` is the key of the capture's file.
pub fn editor_target(editing: Option<&EditTarget>, key: &str, theme: Option<Theme>) -> (r: Result<
    EditorTarget,
    String,
>)
    ensures
        match editing {
            Some(target) => {
                &&& r matches Ok(shown)
                &&& shown.path@ == target.path@
                &&& shown.file_name@ == crate::history::spec_file_name(target.path@)
                &&& shown.image_url@ == crate::history::url_of("full"@, key@)
                &&& shown.reviewing == target.reviewing
                &&& shown.theme == match theme {
                    Some(theme) => theme,
                    None => Theme::System,
                }
            },
            None => r matches Err(e) && e@ == "no capture is open in the editor"@,
        },
        r matches Ok(shown) ==> shown.image_url@ == "http://"@ + "snipd"@ + ".localhost/"@ + "full"@
            + "?k="@ + key@,
{
    match editing {
        Some(target) => Ok(
            EditorTarget {
                path: target.path.clone(),
                file_name: file_name_of(target.path.as_str()),
                image_url: media_url(key),
                reviewing: target.reviewing,
                theme: match theme {
                    Some(theme) => theme,
                    None => Theme::System,
                },
            },
        ),
        None => Err("no capture is open in the editor".to_owned()),
    }
}

// ---------------------------------------------------------------------------
// Pictures
// ---------------------------------------------------------------------------

/// The value of a pair, where it is the value of this name.
pub open spec fn pair_value(pair: Seq<char>, key: Seq<char>) -> Option<Seq<char>> {
    let i = crate::text::first_index(pair, '=');
    if i < pair.len() && pair.take(i) == key {
        Some(pair.skip(i + 1))
    } else {
        None
    }
}

/// The value of a name among pairs with `&` between them: that of the first pair
/// of this name.
pub open spec fn param_value(query: Seq<char>, key: Seq<char>) -> Option<Seq<char>>
    decreases query.len(),
    via param_value_ends
{
    let i = crate::text::first_index(query, '&');
    match pair_value(query.take(i), key) {
        Some(value) => Some(value),
        None => if i < query.len() {
            param_value(query.skip(i + 1), key)
        } else {
            None
        },
    }
}

#[via_fn]
proof fn param_value_ends(query: Seq<char>, key: Seq<char>) {
    crate::text::lemma_first_index(query, '&');
}

/// The place of the first `c` at or after `from`, or the end.
fn find_char(chars: &Vec<char>, from: usize, c: char) -> (r: usize)
    requires
        from <= chars.len(),
    ensures
        from <= r <= chars.len(),
        r - from == crate::text::first_index(chars@.skip(from as int), c),
{
    let mut i: usize = from;
    while i < chars.len() && chars[i] != c
        invariant
            from <= i <= chars.len(),
            crate::text::first_index(chars@.skip(from as int), c) == i - from
                + crate::text::first_index(chars@.skip(i as int), c),
        decreases chars.len() - i,
    {
        assert(chars@.skip(i as int).drop_first() =~= chars@.skip(i + 1));
        i += 1;
    }
    i
}

/// The value of a pair, where it is the value of this name.
fn value_of(pair: &str, key: &str) -> (r: Option<String>)
    ensures
        crate::capture::text_view(r) == pair_value(pair@, key@),
{
    let chars: Vec<char> = chars_of(pair);
    assert(chars@.skip(0) =~= chars@);
    let i: usize = find_char(&chars, 0, '=');
    if i == chars.len() {
        return None;
    }
    let name: String = string_of(&chars, 0, i);
    assert(name@ =~= pair@.take(i as int));
    if !same(name.as_str(), key) {
        return None;
    }
    let end: usize = chars.len();
    assert(chars@.subrange(i + 1, end as int) =~= pair@.skip(i + 1));
    Some(string_of(&chars, i + 1, end))
}

/// Finds the value of a name in the query of an address.
pub fn query_param(query: &str, key: &str) -> (r: Option<String>)
    ensures
        crate::capture::text_view(r) == param_value(query@, key@),
{
    let chars: Vec<char> = chars_of(query);
    let mut from: usize = 0;
    assert(query@.skip(0) =~= query@);
    loop
        invariant
            from <= chars.len(),
            chars@ == query@,
            param_value(query@, key@) == param_value(query@.skip(from as int), key@),
        decreases chars.len() - from,
    {
        let end: usize = find_char(&chars, from, '&');
        let pair: String = string_of(&chars, from, end);
        proof {
            let rest = query@.skip(from as int);
            assert(pair@ =~= rest.take(end - from));
        }
        let value: Option<String> = value_of(pair.as_str(), key);
        if value.is_some() {
            return value;
        }
        if end == chars.len() {
            return None;
        }
        proof {
            let rest = query@.skip(from as int);
            assert(rest.skip(end - from + 1) =~= query@.skip(end + 1));
        }
        from = end + 1;
    }
}

/// What is served.
#[derive(Debug)]
pub struct Response {
    pub status: u16,
    pub headers: Vec<(String, String)>,
    pub body: Vec<u8>,
}

/// What a [`Response`] holds.
pub struct ResponseView {
    pub status: u16,
    pub headers: Seq<(Seq<char>, Seq<char>)>,
    pub body: Seq<u8>,
}

impl View for Response {
    type V = ResponseView;

    open spec fn view(&self) -> ResponseView {
        ResponseView {
            status: self.status,
            headers: self.headers@.map_values(|h: (String, String)| (h.0@, h.1@)),
            body: self.body@,
        }
    }
}

/// What is answered to a request for a picture.
pub open spec fn answer_of(bytes: Option<Seq<u8>>, mime: Seq<char>) -> ResponseView {
    match bytes {
        Some(body) => ResponseView {
            status: 200,
            headers: seq![
                ("Content-Type"@, mime),
                ("Cache-Control"@, "no-store"@),
                ("Access-Control-Allow-Origin"@, "*"@),
            ],
            body,
        },
        None => ResponseView { status: 404, headers: seq![], body: seq![] },
    }
}

/// Answers a request for a picture with its bytes, or says that there is none.
pub fn answer(bytes: Option<Vec<u8>>, mime: &str) -> (r: Response)
    ensures
        r@ == answer_of(
            match bytes {
                Some(b) => Some(b@),
                None => None,
            },
            mime@,
        ),
        bytes matches Some(b) ==> r.status == 200 && r.body@ == b@ && r.headers@.len() == 3
            && r.headers@[0].0@ == "Content-Type"@ && r.headers@[0].1@ == mime@
            && r.headers@[1].0@ == "Cache-Control"@ && r.headers@[1].1@ == "no-store"@
            && r.headers@[2].0@ == "Access-Control-Allow-Origin"@ && r.headers@[2].1@ == "*"@,
        bytes is None ==> r.status == 404 && r.body@.len() == 0 && r.headers@.len() == 0,
{
    let mut headers: Vec<(String, String)> = Vec::new();
    match bytes {
        Some(body) => {
            headers.push(("Content-Type".to_owned(), mime.to_owned()));
            headers.push(("Cache-Control".to_owned(), "no-store".to_owned()));
            headers.push(("Access-Control-Allow-Origin".to_owned(), "*".to_owned()));
            let r: Response = Response { status: 200, headers, body };
            assert(r@.headers =~= answer_of(Some(body@), mime@).headers);
            r
        },
        None => {
            let r: Response = Response { status: 404, headers, body: Vec::new() };
            assert(r@.headers =~= seq![]);
            assert(r@.body =~= seq![]);
            r
        },
    }
}

/// Whether a file is served as PNG, told by its extension in any casing.
pub open spec fn is_png(file: Seq<char>) -> bool {
    crate::history::spec_extension_of(file) matches Some(e) && crate::text::ascii_lowered(e)
        == "png"@
}

fn mime_of(file: &str) -> (r: &'static str)
    ensures
        r@ == if is_png(file@) {
            "image/png"@
        } else {
            "image/jpeg"@
        },
{
    match extension_of(file) {
        Some(e) => {
            let lower: String = to_ascii_lower(e.as_str());
            if same(lower.as_str(), "png") {
                "image/png"
            } else {
                "image/jpeg"
            }
        },
        None => "image/jpeg",
    }
}

/// What an optional query holds.
pub open spec fn query_view(query: Option<&str>) -> Option<Seq<char>> {
    match query {
        Some(q) => Some(q@),
        None => None,
    }
}

/// The key that a request carries.
pub open spec fn requested_key(query: Option<Seq<char>>) -> Option<Seq<char>> {
    match query {
        Some(q) => param_value(q, "k"@),
        None => None,
    }
}

/// Whether the file of a request's key can be this. A request without a key has
/// no file.
pub open spec fn is_file_of<R: FnOnce(&String) -> Option<String>>(
    resolve: R,
    key: Option<Seq<char>>,
    file: Option<String>,
) -> bool {
    match key {
        Some(key) => exists|s: String| s@ == key && #[trigger] resolve.ensures((&s,), file),
        None => file is None,
    }
}

/// Whether the bytes of a request for a path can be these, given the file of its
/// key.
pub open spec fn are_bytes_of<
    B: FnOnce() -> Option<Vec<u8>>,
    T: FnOnce(&String) -> Option<Vec<u8>>,
    F: FnOnce(&String) -> Option<Vec<u8>>,
>(
    path: Seq<char>,
    file: Option<String>,
    backdrop: B,
    thumbnail: T,
    read: F,
    bytes: Option<Vec<u8>>,
) -> bool {
    if path == "/backdrop"@ {
        backdrop.ensures((), bytes)
    } else if path == "/thumb"@ {
        match file {
            Some(file) => thumbnail.ensures((&file,), bytes),
            None => bytes is None,
        }
    } else if path == "/full"@ {
        match file {
            Some(file) => read.ensures((&file,), bytes),
            None => bytes is None,
        }
    } else {
        bytes is None
    }
}

/// What the bytes of a request for a path are served as.
pub open spec fn served_as(path: Seq<char>, file: Option<String>) -> Seq<char> {
    match file {
        Some(file) => if path == "/full"@ && is_png(file@) {
            "image/png"@
        } else {
            "image/jpeg"@
        },
        None => "image/jpeg"@,
    }
}

/// What an optional list of bytes holds.
pub open spec fn body_view(bytes: Option<Vec<u8>>) -> Option<Seq<u8>> {
    match bytes {
        Some(b) => Some(b@),
        None => None,
    }
}

/// Serves a picture.
///
/// `/backdrop` is the picture of the frozen desktop, `/thumb` the thumbnail and
/// `/full` the file of the capture whose key the query carries. `resolve` finds
/// the file of a key, and only keys of captures have one.
pub fn serve_image<
    R: FnOnce(&String) -> Option<String>,
    B: FnOnce() -> Option<Vec<u8>>,
    T: FnOnce(&String) -> Option<Vec<u8>>,
    F: FnOnce(&String) -> Option<Vec<u8>>,
>(path: &str, query: Option<&str>, resolve: R, backdrop: B, thumbnail: T, read: F) -> (r: Response)
    requires
        forall|s: String| resolve.requires((&s,)),
        backdrop.requires(()),
        forall|s: String| thumbnail.requires((&s,)),
        forall|s: String| read.requires((&s,)),
    ensures
        exists|file: Option<String>, bytes: Option<Vec<u8>>|
            {
                &&& #[trigger] is_file_of(
                    resolve,
                    requested_key(query_view(query)),
                    file,
                )
                &&& #[trigger] are_bytes_of(path@, file, backdrop, thumbnail, read, bytes)
                &&& r@ == answer_of(body_view(bytes), served_as(path@, file))
            },
{
    let key: Option<String> = match query {
        Some(q) => query_param(q, "k"),
        None => None,
    };
    let file: Option<String> = match &key {
        Some(key) => resolve(key),
        None => None,
    };
    assert(is_file_of(resolve, crate::capture::text_view(key), file));
    if same(path, "/backdrop") {
        let bytes: Option<Vec<u8>> = backdrop();
        proof {
            reveal_strlit("/backdrop");
            reveal_strlit("/full");
            assert("/backdrop"@.len() != "/full"@.len());
            assert(are_bytes_of(path@, file, backdrop, thumbnail, read, bytes));
        }
        return answer(bytes, "image/jpeg");
    }
    if same(path, "/thumb") {
        let bytes: Option<Vec<u8>> = match &file {
            Some(file) => thumbnail(file),
            None => None,
        };
        proof {
            reveal_strlit("/thumb");
            reveal_strlit("/full");
            assert("/thumb"@.len() != "/full"@.len());
            assert(are_bytes_of(path@, file, backdrop, thumbnail, read, bytes));
        }
        return answer(bytes, "image/jpeg");
    }
    if same(path, "/full") {
        let mime: &'static str = match &file {
            Some(file) => mime_of(file.as_str()),
            None => "image/jpeg",
        };
        let bytes: Option<Vec<u8>> = match &file {
            Some(file) => read(file),
            None => None,
        };
        assert(are_bytes_of(path@, file, backdrop, thumbnail, read, bytes));
        return answer(bytes, mime);
    }
    let bytes: Option<Vec<u8>> = None;
    assert(are_bytes_of(path@, file, backdrop, thumbnail, read, bytes));
    answer(bytes, "image/jpeg")
}

// ---------------------------------------------------------------------------
// Laws
// ---------------------------------------------------------------------------

/// A capture is removed for its age where the user has asked for it and more
/// milliseconds have passed since it was taken than there are in the days that they
/// keep it, however many those are, and not otherwise.
pub proof fn nothing_is_removed_unasked(
    retention: &RetentionSettings,
    entries: Seq<HistoryEntry>,
    now_ms: u64,
    i: usize,
)
    requires
        i < entries.len() <= usize::MAX,
    ensures
        outdated(retention, entries, now_ms, entries.len() as int).contains(i) <==> {
            &&& retention.enabled
            &&& now_ms - entries[i as int].taken_at_ms > retention.days * 86_400_000
        },
        outdated(retention, entries, now_ms, entries.len() as int).contains(i) <==> {
            &&& retention.enabled
            &&& crate::history::is_expired(entries[i as int].taken_at_ms, now_ms, retention.days)
        },
{
    lemma_outdated(retention, entries, now_ms, entries.len() as int, i);
}

proof fn lemma_outdated(
    retention: &RetentionSettings,
    entries: Seq<HistoryEntry>,
    now_ms: u64,
    n: int,
    i: usize,
)
    requires
        0 <= n <= entries.len() <= usize::MAX,
    ensures
        outdated(retention, entries, now_ms, n).contains(i) <==> {
            &&& i < n
            &&& retention.enabled
            &&& crate::history::is_expired(entries[i as int].taken_at_ms, now_ms, retention.days)
        },
    decreases n,
{
    if n > 0 && retention.enabled {
        lemma_outdated(retention, entries, now_ms, n - 1, i);
        let before = outdated(retention, entries, now_ms, n - 1);
        if crate::history::is_expired(entries[n - 1].taken_at_ms, now_ms, retention.days) {
            let after = before.push((n - 1) as usize);
            assert(after[before.len() as int] == n - 1);
            if before.contains(i) {
                let k = choose|k: int| 0 <= k < before.len() && before[k] == i;
                assert(after[k] == i);
            }
            if after.contains(i) {
                let k = choose|k: int| 0 <= k < after.len() && after[k] == i;
                if k < before.len() {
                    assert(before[k] == i);
                }
            }
        }
    }
}

/// Renaming never takes the name of another file: the new name was found free, or
/// the file keeps the one it has.
pub proof fn renaming_takes_no_name_away<F: Fn(&String) -> Probe>(
    probe: F,
    taken: Set<Seq<char>>,
    stem: Seq<char>,
    extension: Seq<char>,
    k: int,
)
    requires
        forall|s: String, answer: Probe| #[trigger]
            probe.ensures((&s,), answer) ==> (answer is Taken <==> taken.contains(s@)),
        is_first_open(probe, stem, extension, k, Probe::Free),
    ensures
        !taken.contains(rename_candidate(stem, extension, k)),
{
}

/// A file that is given the name it has stays as it is.
pub proof fn renaming_to_the_same_name_keeps_it<F: Fn(&String) -> Probe>(
    probe: F,
    stem: Seq<char>,
    extension: Seq<char>,
    k: int,
    answer: Probe,
)
    requires
        forall|s: String, said: Probe|
            s@ == crate::naming::dotted(stem, extension) && #[trigger] probe.ensures((&s,), said)
                ==> said is SameFile,
        is_first_open(probe, stem, extension, k, answer),
    ensures
        k == 0,
        answer is SameFile,
{
    if k > 0 {
        assert(probes(probe, rename_candidate(stem, extension, 0), Probe::Taken));
    }
}

/// Nothing is served for a key of no capture, nor for a path that is not known.
pub proof fn nothing_is_served_without_a_capture<
    B: FnOnce() -> Option<Vec<u8>>,
    T: FnOnce(&String) -> Option<Vec<u8>>,
    F: FnOnce(&String) -> Option<Vec<u8>>,
>(
    path: Seq<char>,
    file: Option<String>,
    backdrop: B,
    thumbnail: T,
    read: F,
    bytes: Option<Vec<u8>>,
)
    requires
        path != "/backdrop"@,
        file is None || (path != "/thumb"@ && path != "/full"@),
        are_bytes_of(path, file, backdrop, thumbnail, read, bytes),
    ensures
        answer_of(body_view(bytes), served_as(path, file)).status == 404,
        answer_of(body_view(bytes), served_as(path, file)).body.len() == 0,
{
}

/// A pair is found whatever follows it.
pub proof fn the_first_pair_counts(pair: Seq<char>, rest: Seq<char>, key: Seq<char>)
    requires
        crate::text::first_index(pair, '&') == pair.len(),
        pair_value(pair, key) is Some,
    ensures
        param_value(pair, key) == pair_value(pair, key),
        param_value(pair + seq!['&'] + rest, key) == pair_value(pair, key),
{
    let query = pair + seq!['&'] + rest;
    assert(pair.take(pair.len() as int) =~= pair);
    lemma_first_of_sum(pair, rest);
    assert(query.take(pair.len() as int) =~= pair);
}

proof fn lemma_first_of_sum(pair: Seq<char>, rest: Seq<char>)
    requires
        crate::text::first_index(pair, '&') == pair.len(),
    ensures
        crate::text::first_index(pair + seq!['&'] + rest, '&') == pair.len(),
    decreases pair.len(),
{
    let query = pair + seq!['&'] + rest;
    if pair.len() == 0 {
        assert(query.first() == '&');
    } else {
        assert(pair.first() != '&');
        assert(query.first() == pair.first());
        assert(query.drop_first() =~= pair.drop_first() + seq!['&'] + rest);
        lemma_first_of_sum(pair.drop_first(), rest);
    }
}

/// The captures that are removed for their age are named once each, in their order.
pub proof fn old_captures_are_named_in_order(
    retention: &RetentionSettings,
    entries: Seq<HistoryEntry>,
    now_ms: u64,
    n: int,
    i: int,
    j: int,
)
    requires
        0 <= n <= entries.len() <= usize::MAX,
        0 <= i < j < outdated(retention, entries, now_ms, n).len(),
    ensures
        outdated(retention, entries, now_ms, n)[i] < outdated(retention, entries, now_ms, n)[j] < n,
    decreases n,
{
    let all = outdated(retention, entries, now_ms, n);
    let before = outdated(retention, entries, now_ms, n - 1);
    if j < before.len() {
        old_captures_are_named_in_order(retention, entries, now_ms, n - 1, i, j);
    } else {
        lemma_outdated(retention, entries, now_ms, n - 1, before[i]);
        assert(before.contains(before[i]));
    }
}

/// The program was started by logging in where one of its arguments says so.
pub proof fn logging_in_is_told_by_an_argument(args: Seq<String>, i: int)
    ensures
        0 <= i < args.len() && args[i]@ == "--autostart"@ ==> is_autostart(args),
        is_autostart(args) ==> exists|k: int|
            0 <= k < args.len() && (#[trigger] args[k])@ == "--autostart"@,
{
}

/// The entry for logging in starts the program at its path with the argument that
/// tells so, and its removal does not depend on the path.
pub proof fn the_login_entry_starts_the_program(exe: Seq<char>, other: Seq<char>)
    ensures
        login_script(exe, true)
            == "New-ItemProperty -Path 'HKCU:\\Software\\Microsoft\\Windows\\CurrentVersion\\Run' -Name 'Snipd' -Value '\""@
            + exe + "\" "@ + "--autostart"@ + "' -PropertyType String -Force | Out-Null"@,
        login_script(exe, false)
            == "Remove-ItemProperty -Path 'HKCU:\\Software\\Microsoft\\Windows\\CurrentVersion\\Run' -Name 'Snipd' -ErrorAction SilentlyContinue"@,
        login_script(exe, false) == login_script(other, false),
        login_script(exe, true) == login_script(other, true) ==> exe == other,
{
    if login_script(exe, true) == login_script(other, true) {
        let head =
            "New-ItemProperty -Path 'HKCU:\\Software\\Microsoft\\Windows\\CurrentVersion\\Run' -Name 'Snipd' -Value '\""@;
        let tail = "\" "@ + "--autostart"@ + "' -PropertyType String -Force | Out-Null"@;
        let a = login_script(exe, true);
        let b = login_script(other, true);
        assert(a =~= head + exe + tail);
        assert(b =~= head + other + tail);
        assert(a.len() == head.len() + exe.len() + tail.len());
        assert(exe =~= a.subrange(head.len() as int, a.len() - tail.len()));
        assert(other =~= b.subrange(head.len() as int, b.len() - tail.len()));
    }
}

/// Settings that the user makes are stored as they are once repaired.
pub proof fn what_is_stored_was_handed_over<F: FnOnce(&Settings) -> Result<(), String>>(
    save: F,
    settings: crate::config::SettingsView,
    outcome: Result<(), String>,
) -> (s: Settings)
    requires
        stores(save, settings, outcome),
    ensures
        s@ == settings,
        save.ensures((&s,), outcome),
{
    choose|s: Settings| s@ == settings && #[trigger] save.ensures((&s,), outcome)
}

/// A number that was used is followed by the next one, and nothing else of the
/// settings changes.
pub proof fn a_used_number_is_followed_by_the_next(
    settings: crate::config::SettingsView,
    used: Option<u32>,
)
    ensures
        used is None ==> numbered(settings, used) == settings,
        used is Some && used->0 < u32::MAX ==> numbered(settings, used).naming.counter == used->0
            + 1,
        used is Some && used->0 == u32::MAX ==> numbered(settings, used).naming.counter == used->0,
        numbered(settings, used) == (crate::config::SettingsView {
            naming: crate::config::NamingView {
                counter: numbered(settings, used).naming.counter,
                ..settings.naming
            },
            ..settings
        }),
{
}

/// An edited image is told by the bytes of its text, and by the picture in them. What
/// is wrong is told in the words of what failed.
pub proof fn edits_are_read_or_explained(
    png: Seq<char>,
    read: Result<ImageView, Seq<char>>,
    words: Seq<char>,
)
    ensures
        base64_bytes(png) is Ok ==> edited_bytes(png) is Ok && edited_bytes(png)->Ok_0
            == base64_bytes(png)->Ok_0,
        base64_bytes(png) is Err ==> edited_bytes(png) is Err && edited_bytes(png)->Err_0
            == "the edited image was not valid base64: "@ + base64_bytes(png)->Err_0,
        read is Ok ==> edited_picture(read) is Ok && edited_picture(read)->Ok_0 == read->Ok_0,
        read is Err ==> edited_picture(read) is Err && edited_picture(read)->Err_0
            == "the edited image could not be decoded: "@ + read->Err_0,
        is_unreadable_edit(words) <==> words.len()
            >= "the edited image could not be decoded: "@.len() && words.take(
            "the edited image could not be decoded: "@.len() as int,
        ) == "the edited image could not be decoded: "@,
        is_reading(read) && read is Ok ==> read->Ok_0.pixels.len() == 4 * (read->Ok_0.width
            * read->Ok_0.height),
{
    let head = "the edited image could not be decoded: "@;
    if is_unreadable_edit(words) {
        let why = choose|why: Seq<char>| words == #[trigger] (head + why);
        assert(words.take(head.len() as int) =~= head);
    }
    if words.len() >= head.len() && words.take(head.len() as int) == head {
        let why = words.skip(head.len() as int);
        assert(words =~= head + why);
        assert(words == head + why);
    }
}

/// An edited picture is saved as a capture of its own kind, with every pixel as it
/// was read, in the format of the settings. What has no file of that format is
/// refused in the words of the encoder.
pub proof fn edits_are_saved_as_read<P: Fn(&String) -> bool, L: Fn(&String) -> String>(
    read: Result<ImageView, Seq<char>>,
    settings: crate::config::SettingsView,
    directory: Seq<char>,
    taken_at: &LocalTime,
    now: &LocalTime,
    probe: P,
    locate: L,
    r: Result<(Frame, SaveSession), String>,
)
    requires
        is_edit_saved(read, settings, directory, taken_at, now, probe, locate, r),
    ensures
        read is Err ==> r is Err && r->Err_0@ == "the edited image could not be decoded: "@
            + read->Err_0,
        read is Ok && settings.format is Png ==> (r is Ok <==> read->Ok_0.width != 0
            && read->Ok_0.height != 0),
        read is Ok && settings.format is Jpeg ==> (r is Ok <==> 0 < read->Ok_0.width <= 65535 && 0
            < read->Ok_0.height <= 65535),
        read is Ok && r is Ok ==> {
            let (frame, session) = r->Ok_0;
            &&& frame.image@ == read->Ok_0
            &&& frame.origin == (0i32, 0i32)
            &&& session.record.kind is Edited
            &&& session.record.source is Some
            &&& session.record.source->0@ == "Edited"@
            &&& session.record.width == read->Ok_0.width
            &&& session.record.height == read->Ok_0.height
            &&& session.auto_copy == settings.clipboard.auto_copy
            &&& session.stage is Write
            &&& settings.format is Png ==> crate::capture::pixels::png_file(
                read->Ok_0.pixels,
                read->Ok_0.width,
                read->Ok_0.height,
            ) == Ok::<Seq<u8>, Seq<char>>(session.content@)
            &&& settings.format is Jpeg ==> crate::capture::pixels::jpeg_file(
                crate::capture::pixels::packed(read->Ok_0.pixels),
                read->Ok_0.width,
                read->Ok_0.height,
                settings.jpeg_quality,
            ) == Ok::<Seq<u8>, Seq<char>>(session.content@)
        },
{
    if read is Ok && r is Ok {
        let (frame, session) = r->Ok_0;
        let found = crate::capture::a_capture_starts_out_as_taken(
            &frame,
            CaptureKind::Edited,
            Some("Edited"@),
            settings,
            directory,
            taken_at,
            now,
            probe,
            locate,
            session,
        );
    }
}

/// The names that are tried for a file: the one that was asked for, then the same
/// with 2, 3 and so on behind it.
pub proof fn renames_are_counted_from_two(stem: Seq<char>, extension: Seq<char>, k: int)
    requires
        k > 0,
    ensures
        rename_candidate(stem, extension, 0) == stem + "."@ + extension,
        rename_candidate(stem, extension, k) == stem + "_"@ + crate::text::decimal((k + 1) as nat)
            + "."@ + extension,
{
}

/// A file is given the first name that no other file has, or stays as it is where that
/// name is its own. Only where 999 names are taken is there none. Gives the place of
/// the name.
pub proof fn the_first_open_name_is_taken<F: Fn(&String) -> Probe>(
    probe: F,
    stem: Seq<char>,
    extension: Seq<char>,
    r: Result<Rename, String>,
) -> (k: int)
    requires
        is_renamed(probe, stem, extension, r),
    ensures
        forall|j: int|
            0 <= j < k ==> probes(
                probe,
                #[trigger] rename_candidate(stem, extension, j),
                Probe::Taken,
            ),
        r is Err ==> k == 999 && r->Err_0@ == "could not find a free filename"@,
        r is Ok ==> 0 <= k < 999,
        r is Ok && r->Ok_0 is Keep ==> exists|s: String|
            s@ == rename_candidate(stem, extension, k) && #[trigger] probe.ensures(
                (&s,),
                Probe::SameFile,
            ),
        r is Ok && r->Ok_0 is To ==> r->Ok_0->To_0@ == rename_candidate(stem, extension, k)
            && exists|s: String|
            s@ == rename_candidate(stem, extension, k) && #[trigger] probe.ensures(
                (&s,),
                Probe::Free,
            ),
{
    let k = match r {
        Ok(Rename::To(name)) => {
            let k = choose|k: int|
                {
                    &&& #[trigger] is_first_open(probe, stem, extension, k, Probe::Free)
                    &&& name@ == rename_candidate(stem, extension, k)
                };
            assert(probes(probe, rename_candidate(stem, extension, k), Probe::Free));
            k
        },
        Ok(Rename::Keep) => {
            let k = choose|k: int| #[trigger]
                is_first_open(probe, stem, extension, k, Probe::SameFile);
            assert(probes(probe, rename_candidate(stem, extension, k), Probe::SameFile));
            k
        },
        Err(_) => 999,
    };
    assert(renames_taken(probe, stem, extension, k));
    k
}

/// A name was found as it is said where asking for that very name can give that
/// answer. Gives the name that was asked for.
pub proof fn names_are_asked_for_as_written<F: Fn(&String) -> Probe>(
    probe: F,
    name: Seq<char>,
    answer: Probe,
) -> (s: String)
    requires
        probes(probe, name, answer),
    ensures
        s@ == name,
        probe.ensures((&s,), answer),
{
    choose|s: String| s@ == name && #[trigger] probe.ensures((&s,), answer)
}

/// A file that is renamed keeps its extension, and is taken for PNG without one.
pub proof fn renamed_files_keep_their_extension(extension: Option<String>)
    ensures
        extension is Some ==> kept_extension(extension) == extension->0@,
        extension is None ==> kept_extension(extension) == "png"@,
{
}

/// A pair has the value behind its first equals sign, under the name before it. A text
/// without one is no pair.
pub proof fn a_pair_is_a_name_and_a_value(name: Seq<char>, value: Seq<char>, key: Seq<char>)
    requires
        !name.contains('='),
    ensures
        name == key ==> pair_value(name + seq!['='] + value, key) == Some(value),
        name != key ==> pair_value(name + seq!['='] + value, key) is None,
        pair_value(name, key) is None,
{
    let pair = name + seq!['='] + value;
    crate::text::lemma_first_index(pair, '=');
    crate::text::lemma_first_index(name, '=');
    let i = crate::text::first_index(pair, '=');
    let n = name.len() as int;
    assert(pair[n] == '=');
    if i < n {
        assert(pair[i] == name[i]);
        assert(name.contains(name[i]));
    }
    assert(i == n);
    assert(pair.take(n) =~= name);
    assert(pair.skip(n + 1) =~= value);
    let j = crate::text::first_index(name, '=');
    if j < n {
        assert(name.contains(name[j]));
    }
}

/// A pair of another name is passed over, and a query of one pair has the value of
/// that pair.
pub proof fn other_pairs_are_passed_over(pair: Seq<char>, rest: Seq<char>, key: Seq<char>)
    requires
        !pair.contains('&'),
    ensures
        param_value(pair, key) == pair_value(pair, key),
        pair_value(pair, key) is None ==> param_value(pair + seq!['&'] + rest, key) == param_value(
            rest,
            key,
        ),
        pair_value(pair, key) is Some ==> param_value(pair + seq!['&'] + rest, key) == pair_value(
            pair,
            key,
        ),
{
    let query = pair + seq!['&'] + rest;
    let n = pair.len() as int;
    crate::text::lemma_first_index(query, '&');
    crate::text::lemma_first_index(pair, '&');
    let i = crate::text::first_index(query, '&');
    let j = crate::text::first_index(pair, '&');
    assert(query[n] == '&');
    if i < n {
        assert(query[i] == pair[i]);
        assert(pair.contains(pair[i]));
    }
    if j < n {
        assert(pair.contains(pair[j]));
    }
    assert(i == n && j == n);
    assert(query.take(n) =~= pair);
    assert(pair.take(n) =~= pair);
    assert(query.skip(n + 1) =~= rest);
}

/// What is answered: the bytes, as what they are and not to be kept, or that there
/// are none.
pub proof fn answers_carry_their_bytes(body: Seq<u8>, mime: Seq<char>)
    ensures
        answer_of(Some(body), mime).status == 200,
        answer_of(Some(body), mime).body == body,
        answer_of(Some(body), mime).headers == seq![
            ("Content-Type"@, mime),
            ("Cache-Control"@, "no-store"@),
            ("Access-Control-Allow-Origin"@, "*"@),
        ],
        answer_of(None, mime).status == 404,
        answer_of(None, mime).body.len() == 0,
        answer_of(None, mime).headers.len() == 0,
{
}

/// Each path is served from its own source: the backdrop as it is, the thumbnail and
/// the whole file of the key that the query has under `k`. Only a whole file whose
/// extension says so is served as PNG.
pub proof fn each_path_has_its_source<
    R: FnOnce(&String) -> Option<String>,
    B: FnOnce() -> Option<Vec<u8>>,
    T: FnOnce(&String) -> Option<Vec<u8>>,
    F: FnOnce(&String) -> Option<Vec<u8>>,
>(
    path: Seq<char>,
    query: Option<Seq<char>>,
    resolve: R,
    file: Option<String>,
    backdrop: B,
    thumbnail: T,
    read: F,
    bytes: Option<Vec<u8>>,
)
    requires
        is_file_of(resolve, requested_key(query), file),
        are_bytes_of(path, file, backdrop, thumbnail, read, bytes),
    ensures
        path == "/backdrop"@ ==> backdrop.ensures((), bytes) && served_as(path, file)
            == "image/jpeg"@,
        path == "/thumb"@ && file is Some ==> thumbnail.ensures((&file->0,), bytes) && served_as(
            path,
            file,
        ) == "image/jpeg"@,
        path == "/full"@ && file is Some ==> read.ensures((&file->0,), bytes),
        path == "/full"@ && file is Some && crate::history::spec_format_of(file->0@) == Some(
            ImageFormat::Png,
        ) ==> served_as(path, file) == "image/png"@,
        path == "/full"@ && file is Some && crate::history::spec_format_of(file->0@) != Some(
            ImageFormat::Png,
        ) ==> served_as(path, file) == "image/jpeg"@,
        path != "/backdrop"@ && file is None ==> bytes is None,
        path != "/backdrop"@ && path != "/thumb"@ && path != "/full"@ ==> bytes is None,
        query is None ==> file is None,
        query is Some && param_value(query->0, "k"@) is None ==> file is None,
        query is Some && param_value(query->0, "k"@) is Some ==> exists|s: String|
            s@ == param_value(query->0, "k"@)->0 && #[trigger] resolve.ensures((&s,), file),
        bytes is Some ==> body_view(bytes) == Some(bytes->0@),
        bytes is None ==> body_view(bytes) is None,
{
    reveal_strlit("/backdrop");
    reveal_strlit("/thumb");
    reveal_strlit("/full");
    assert("/backdrop"@.len() == 9 && "/thumb"@.len() == 6 && "/full"@.len() == 5);
    if file is Some {
        crate::history::formats_go_by_the_extension(file->0@);
    }
}

/// What is shown of a response and of a query is what they hold.
pub proof fn responses_are_shown_as_they_are(response: Response, query: Option<&str>, i: int)
    ensures
        response@.status == response.status,
        response@.body == response.body@,
        response@.headers.len() == response.headers@.len(),
        0 <= i < response.headers@.len() ==> response@.headers[i] == (
            response.headers@[i].0@,
            response.headers@[i].1@,
        ),
        query is None <==> query_view(query) is None,
        query is Some ==> query_view(query) == Some(query->0@),
{
}

} // verus!
