//! Captures: from the screen to the disk.
//!
//! A capture is never lost. Its pixels are read, then its file is written, and
//! only then does anything else happen: the counter is stored, the image is
//! copied, the library is told. What goes wrong after the file is written is
//! reported beside the capture, never in place of it.

pub mod mask;
pub mod pixels;
pub mod win;

use vstd::prelude::*;
use vstd::string::*;

use crate::clock::LocalTime;
use crate::config::{ImageFormat, Settings};
use crate::naming::{resolve, NameRequest, ResolvedName};
use crate::text::{blank, decimal_text, same};

use self::pixels::encode_capture;
use self::win::{
    active_window, capture_area, monitor_at, monitor_by_id, Bounds, CaptureError, Frame,
    MonitorInfo, VirtualDesktop, WindowFacts,
};

verus! {

/// How a capture came about.
#[derive(Debug, Clone, Copy, PartialEq, Eq, Structural)]
pub enum CaptureKind {
    FullScreen,
    ActiveWindow,
    Region,
    /// A shape that the user drew, with a transparent margin.
    Freeform,
    /// A copy that the user drew on.
    Edited,
    /// A video.
    Recording,
}

/// What to capture.
#[derive(Debug)]
pub enum CaptureRequest {
    /// One display, or all of them where none is named.
    FullScreen { monitor_id: Option<String> },
    /// The frontmost window of another program.
    ActiveWindow,
    /// A rectangle of the desktop.
    Region { bounds: Bounds },
}

/// A saved capture.
#[derive(Debug)]
pub struct CaptureRecord {
    pub id: String,
    /// The absolute path of the file.
    pub path: String,
    pub file_name: String,
    pub width: u32,
    pub height: u32,
    /// In the notation of RFC 3339.
    pub taken_at: String,
    pub kind: CaptureKind,
    /// The title of the window, or the name of the display.
    pub source: Option<String>,
    pub bytes: u64,
    pub copied_to_clipboard: bool,
    /// What went wrong after the file was written.
    pub warnings: Vec<String>,
}

/// What a [`CaptureRecord`] holds.
pub struct RecordView {
    pub id: Seq<char>,
    pub path: Seq<char>,
    pub file_name: Seq<char>,
    pub width: u32,
    pub height: u32,
    pub taken_at: Seq<char>,
    pub kind: CaptureKind,
    pub source: Option<Seq<char>>,
    pub bytes: u64,
    pub copied_to_clipboard: bool,
    pub warnings: Seq<Seq<char>>,
}

/// What an optional text holds.
pub open spec fn text_view(s: Option<String>) -> Option<Seq<char>> {
    match s {
        Some(text) => Some(text@),
        None => None,
    }
}

/// What a list of texts holds.
pub open spec fn texts_view(list: Seq<String>) -> Seq<Seq<char>> {
    list.map_values(|s: String| s@)
}

impl View for CaptureRecord {
    type V = RecordView;

    open spec fn view(&self) -> RecordView {
        RecordView {
            id: self.id@,
            path: self.path@,
            file_name: self.file_name@,
            width: self.width,
            height: self.height,
            taken_at: self.taken_at@,
            kind: self.kind,
            source: text_view(self.source),
            bytes: self.bytes,
            copied_to_clipboard: self.copied_to_clipboard,
            warnings: texts_view(self.warnings@),
        }
    }
}

// ---------------------------------------------------------------------------
// What to read
// ---------------------------------------------------------------------------

/// What the system shows at one moment.
pub struct Screen {
    pub monitors: Vec<MonitorInfo>,
    pub desktop: VirtualDesktop,
    pub foreground: Option<WindowFacts>,
    /// From the topmost down.
    pub windows: Vec<WindowFacts>,
    /// The number of this process.
    pub own_process: u32,
}

/// An area to read, and what the capture of it is.
#[derive(Debug)]
pub struct Target {
    pub area: Bounds,
    pub kind: CaptureKind,
    pub source: Option<String>,
}

/// What a [`Target`] holds, or the words of an error.
pub open spec fn target_view(r: Result<Target, String>) -> Result<
    (Bounds, CaptureKind, Option<Seq<char>>),
    Seq<char>,
> {
    match r {
        Ok(t) => Ok((t.area, t.kind, text_view(t.source))),
        Err(e) => Err(e@),
    }
}

/// The window that a capture of the active window is of.
pub open spec fn front_window(screen: &Screen) -> Option<win::TargetView> {
    let front = match screen.foreground {
        Some(w) => w.spec_target(screen.own_process),
        None => None,
    };
    if front is Some {
        front
    } else {
        win::topmost(screen.windows@, screen.own_process)
    }
}

/// The area, the kind and the source that a request comes to.
pub open spec fn wanted(request: CaptureRequest, screen: &Screen) -> Result<
    (Bounds, CaptureKind, Option<Seq<char>>),
    Seq<char>,
> {
    match request {
        CaptureRequest::FullScreen { monitor_id: None } => Ok(
            (screen.desktop.spec_as_rect(), CaptureKind::FullScreen, Some("All displays"@)),
        ),
        CaptureRequest::FullScreen { monitor_id: Some(id) } => {
            let k = win::monitor_id_place(screen.monitors@, id@);
            if k < screen.monitors@.len() {
                let monitor = screen.monitors@[k];
                Ok((monitor.spec_bounds(), CaptureKind::FullScreen, Some(monitor.label@)))
            } else {
                Err("display "@ + id@ + " is no longer connected"@)
            }
        },
        CaptureRequest::ActiveWindow => match front_window(screen) {
            Some(target) => Ok(
                (
                    target.bounds,
                    CaptureKind::ActiveWindow,
                    if crate::text::is_blank(target.title) {
                        None
                    } else {
                        Some(target.title)
                    },
                ),
            ),
            None => Err("no foreground window could be identified"@),
        },
        CaptureRequest::Region { bounds } => {
            let k = win::monitor_place(screen.monitors@, bounds.x as int, bounds.y as int);
            Ok(
                (
                    bounds,
                    CaptureKind::Region,
                    if k < screen.monitors@.len() {
                        Some(screen.monitors@[k].label@)
                    } else {
                        None
                    },
                ),
            )
        },
    }
}

/// Finds what a request is about: the area to read, and where it is.
pub fn target_of(request: CaptureRequest, screen: &Screen) -> (r: Result<Target, String>)
    ensures
        target_view(r) == wanted(request, screen),
{
    match request {
        CaptureRequest::FullScreen { monitor_id } => match monitor_id {
            Some(id) => match monitor_by_id(&screen.monitors, id.as_str()) {
                Some(monitor) => Ok(
                    Target {
                        area: monitor.bounds(),
                        kind: CaptureKind::FullScreen,
                        source: Some(monitor.label.clone()),
                    },
                ),
                None => {
                    let mut message: String = "display ".to_owned();
                    message.append(id.as_str());
                    message.append(" is no longer connected");
                    Err(message)
                },
            },
            None => Ok(
                Target {
                    area: screen.desktop.as_rect(),
                    kind: CaptureKind::FullScreen,
                    source: Some("All displays".to_owned()),
                },
            ),
        },
        CaptureRequest::ActiveWindow => {
            let foreground: Option<&WindowFacts> = match &screen.foreground {
                Some(w) => Some(w),
                None => None,
            };
            match active_window(foreground, &screen.windows, screen.own_process) {
                Ok(found) => {
                    let source: Option<String> = if blank(found.title.as_str()) {
                        None
                    } else {
                        Some(found.title)
                    };
                    Ok(Target { area: found.bounds, kind: CaptureKind::ActiveWindow, source })
                },
                Err(e) => Err(e.message()),
            }
        },
        CaptureRequest::Region { bounds } => {
            let source: Option<String> = match monitor_at(&screen.monitors, (bounds.x, bounds.y)) {
                Some(monitor) => Some(monitor.label.clone()),
                None => None,
            };
            Ok(Target { area: bounds, kind: CaptureKind::Region, source })
        },
    }
}

/// A frame, and what the capture of it is.
pub struct Grabbed {
    pub frame: Frame,
    pub kind: CaptureKind,
    pub source: Option<String>,
}

/// Whether `grabbed` is the capture of an area of this kind and source.
pub open spec fn is_grabbed<R: FnOnce(Bounds) -> Result<Vec<u8>, String>>(
    what: (Bounds, CaptureKind, Option<Seq<char>>),
    desktop: Bounds,
    read: R,
    grabbed: Grabbed,
) -> bool {
    &&& win::is_captured(what.0, desktop, read, grabbed.frame)
    &&& grabbed.kind == what.1
    &&& text_view(grabbed.source) == what.2
}

/// Whether an area can fail to be captured in these words.
pub open spec fn is_refused<R: FnOnce(Bounds) -> Result<Vec<u8>, String>>(
    area: Bounds,
    desktop: Bounds,
    read: R,
    words: Seq<char>,
) -> bool {
    exists|e: CaptureError|
        {
            &&& words == #[trigger] e.spec_message()
            &&& win::is_failed_read(area, desktop, read, e) || win::is_short_read(
                area,
                desktop,
                read,
                e,
            )
        }
}

/// Reads the pixels that a request is about.
///
/// `read` reads an area of the screen, as for [`win::capture_area`].
pub fn grab<R: FnOnce(Bounds) -> Result<Vec<u8>, String>>(
    request: CaptureRequest,
    screen: &Screen,
    read: R,
) -> (r: Result<Grabbed, String>)
    requires
        forall|b: Bounds| #[trigger] read.requires((b,)),
    ensures
        match wanted(request, screen) {
            Ok(what) => match r {
                Ok(grabbed) => is_grabbed(what, screen.desktop.spec_as_rect(), read, grabbed),
                Err(words) => is_refused(what.0, screen.desktop.spec_as_rect(), read, words@),
            },
            Err(words) => r matches Err(e) && e@ == words,
        },
{
    let target: Target = match target_of(request, screen) {
        Ok(target) => target,
        Err(e) => {
            return Err(e);
        },
    };
    match capture_area(target.area, screen.desktop.as_rect(), read) {
        Ok(frame) => Ok(Grabbed { frame, kind: target.kind, source: target.source }),
        Err(e) => {
            let words: String = e.message();
            assert(words@ == e.spec_message());
            Err(words)
        },
    }
}

// ---------------------------------------------------------------------------
// Saving
// ---------------------------------------------------------------------------

/// How a capture is encoded. A drawn shape is transparent round the edges, which
/// only PNG can hold.
pub open spec fn spec_format_for(kind: CaptureKind, configured: ImageFormat) -> ImageFormat {
    if kind == CaptureKind::Freeform {
        ImageFormat::Png
    } else {
        configured
    }
}

pub fn format_for(kind: CaptureKind, configured: ImageFormat) -> (r: ImageFormat)
    ensures
        r == spec_format_for(kind, configured),
        kind is Freeform ==> r is Png,
        kind !is Freeform ==> r == configured,
{
    match kind {
        CaptureKind::Freeform => ImageFormat::Png,
        _ => configured,
    }
}

/// What has to be done next.
#[derive(Debug, Clone, Copy, PartialEq, Eq, Structural)]
pub enum SaveStage {
    /// Write the file.
    Write,
    /// Store the settings, whose counter has moved on.
    Persist,
    /// Copy the image.
    Copy,
    /// Tell the library.
    Index,
    /// Nothing: the capture is saved.
    Done,
    /// Nothing: the file could not be written.
    Failed,
}

/// What came of doing it.
#[derive(Debug)]
pub enum SaveEvent {
    /// The size of the file.
    Written(Result<u64, String>),
    Persisted(Result<(), String>),
    /// The number of attempts.
    Copied(Result<u32, String>),
    Indexed(Result<(), String>),
}

/// A capture on its way to the disk.
pub struct SaveSession {
    pub stage: SaveStage,
    /// What to write.
    pub content: Vec<u8>,
    /// The name to write it under, before it is renamed into place.
    pub part_name: String,
    pub counter_used: Option<u32>,
    pub auto_copy: bool,
    /// What the capture is, as far as that is known.
    pub record: CaptureRecord,
    /// Why the file could not be written.
    pub error: String,
}

/// What a [`SaveSession`] holds that changes.
pub struct SaveView {
    pub stage: SaveStage,
    pub counter_used: Option<u32>,
    pub auto_copy: bool,
    pub record: RecordView,
    pub error: Seq<char>,
}

impl View for SaveSession {
    type V = SaveView;

    open spec fn view(&self) -> SaveView {
        SaveView {
            stage: self.stage,
            counter_used: self.counter_used,
            auto_copy: self.auto_copy,
            record: self.record@,
            error: self.error@,
        }
    }
}

/// A record with one more warning.
pub open spec fn warned(record: RecordView, warning: Seq<char>) -> RecordView {
    RecordView { warnings: record.warnings.push(warning), ..record }
}

/// A record with a warning where something went wrong.
pub open spec fn noted<T>(
    record: RecordView,
    outcome: Result<T, String>,
    words: Seq<char>,
) -> RecordView {
    match outcome {
        Ok(_) => record,
        Err(why) => warned(record, words + why@),
    }
}

/// What follows once the settings are stored.
pub open spec fn stage_after_persist(auto_copy: bool) -> SaveStage {
    if auto_copy {
        SaveStage::Copy
    } else {
        SaveStage::Index
    }
}

/// What follows once the file is written.
pub open spec fn stage_after_write(counter_used: Option<u32>, auto_copy: bool) -> SaveStage {
    if counter_used is Some {
        SaveStage::Persist
    } else {
        stage_after_persist(auto_copy)
    }
}

/// Whether an event is about what was to be done.
pub open spec fn fits(stage: SaveStage, event: SaveEvent) -> bool {
    match event {
        SaveEvent::Written(_) => stage is Write,
        SaveEvent::Persisted(_) => stage is Persist,
        SaveEvent::Copied(_) => stage is Copy,
        SaveEvent::Indexed(_) => stage is Index,
    }
}

/// How saving goes on after an event. An event about anything else changes
/// nothing.
pub open spec fn step(v: SaveView, event: SaveEvent) -> SaveView {
    if !fits(v.stage, event) {
        v
    } else {
        match event {
            SaveEvent::Written(Ok(bytes)) => SaveView {
                stage: stage_after_write(v.counter_used, v.auto_copy),
                record: RecordView { bytes, ..v.record },
                ..v
            },
            SaveEvent::Written(Err(why)) => SaveView {
                stage: SaveStage::Failed,
                error: why@,
                ..v
            },
            SaveEvent::Persisted(outcome) => SaveView {
                stage: stage_after_persist(v.auto_copy),
                record: noted(v.record, outcome, "Could not persist the filename counter: "@),
                ..v
            },
            SaveEvent::Copied(outcome) => SaveView {
                stage: SaveStage::Index,
                record: RecordView {
                    copied_to_clipboard: outcome is Ok,
                    ..noted(v.record, outcome, "Could not copy to clipboard: "@)
                },
                ..v
            },
            SaveEvent::Indexed(outcome) => SaveView {
                stage: SaveStage::Done,
                record: noted(v.record, outcome, "Could not update the history index: "@),
                ..v
            },
        }
    }
}

/// The number after a number, as far as there is one.
pub open spec fn number_after(used: u32) -> u32 {
    if used == u32::MAX {
        used
    } else {
        (used + 1) as u32
    }
}

/// The settings after an event: a written file takes its number.
pub open spec fn settings_after(
    settings: crate::config::SettingsView,
    v: SaveView,
    event: SaveEvent,
) -> crate::config::SettingsView {
    match (event, v.counter_used) {
        (SaveEvent::Written(Ok(_)), Some(used)) if v.stage is Write => crate::config::SettingsView {
            naming: crate::config::NamingView { counter: number_after(used), ..settings.naming },
            ..settings
        },
        _ => settings,
    }
}

/// The words for captures that went somewhere else.
pub open spec fn moved_warning(directory: Seq<char>) -> Seq<char> {
    "Configured save folder was unavailable; saved to "@ + directory + " instead."@
}

/// The text that tells captures apart.
pub open spec fn capture_id(at: &LocalTime, width: u32, height: u32) -> Seq<char> {
    crate::clock::strftime_text(
        "%Y%m%d%H%M%S%3f"@,
        at.spec_secs(),
        at.spec_nanos(),
        at.spec_offset(),
    )->0 + "-"@ + crate::text::decimal((width ^ height) as nat)
}

/// A moment as digits, down to the millisecond.
pub(crate) fn digits_of(at: &LocalTime) -> (r: String)
    ensures
        Some(r@) == crate::clock::strftime_text(
            "%Y%m%d%H%M%S%3f"@,
            at.spec_secs(),
            at.spec_nanos(),
            at.spec_offset(),
        ),
{
    proof {
        reveal_strlit("%Y%m%d%H%M%S%3f");
        reveal_with_fuel(crate::clock::plain_from, 12);
    }
    match at.format("%Y%m%d%H%M%S%3f") {
        Some(text) => text,
        None => String::new(),
    }
}

fn id_text(at: &LocalTime, width: u32, height: u32) -> (r: String)
    ensures
        r@ == capture_id(at, width, height),
{
    let mut id: String = digits_of(at);
    id.append("-");
    id.append(decimal_text((width ^ height) as u64).as_str());
    id
}

/// The warnings that a capture starts out with.
pub open spec fn first_warnings(configured: Seq<char>, directory: Seq<char>) -> Seq<Seq<char>> {
    if directory == configured {
        seq![]
    } else {
        seq![moved_warning(directory)]
    }
}

fn opening_warnings(configured: &str, directory: &str) -> (r: Vec<String>)
    ensures
        texts_view(r@) == first_warnings(configured@, directory@),
{
    let mut warnings: Vec<String> = Vec::new();
    if !same(directory, configured) {
        let mut warning: String = "Configured save folder was unavailable; saved to ".to_owned();
        warning.append(directory);
        warning.append(" instead.");
        warnings.push(warning);
    }
    assert(texts_view(warnings@) =~= first_warnings(configured@, directory@));
    warnings
}

/// Whether `r` is the start of saving `frame` under the name `name`.
pub open spec fn is_started(
    frame: &Frame,
    kind: CaptureKind,
    source: Option<Seq<char>>,
    settings: crate::config::SettingsView,
    directory: Seq<char>,
    taken_at: &LocalTime,
    name: ResolvedName,
    path: Seq<char>,
    r: SaveSession,
) -> bool {
    let format = spec_format_for(kind, settings.format);
    &&& pixels::capture_file(frame.image@, format, settings.jpeg_quality) == Ok::<
        Seq<u8>,
        Seq<char>,
    >(r.content@)
    &&& r.part_name@ == name.file_name@ + ".part"@
    &&& r@ == SaveView {
        stage: SaveStage::Write,
        counter_used: name.counter_used,
        auto_copy: settings.clipboard.auto_copy,
        record: RecordView {
            id: capture_id(taken_at, frame.image@.width, frame.image@.height),
            path,
            file_name: name.file_name@,
            width: frame.image@.width,
            height: frame.image@.height,
            taken_at: crate::clock::rfc3339_text(
                taken_at.spec_secs(),
                taken_at.spec_nanos(),
                taken_at.spec_offset(),
            ),
            kind,
            source,
            bytes: 0,
            copied_to_clipboard: false,
            warnings: first_warnings(settings.save_directory, directory),
        },
        error: ""@,
    }
}

/// Whether `session` is the start of saving `frame` under a name that is free.
pub open spec fn is_saving<P: Fn(&String) -> bool, L: Fn(&String) -> String>(
    frame: &Frame,
    kind: CaptureKind,
    source: Option<Seq<char>>,
    settings: crate::config::SettingsView,
    directory: Seq<char>,
    taken_at: &LocalTime,
    now: &LocalTime,
    probe: P,
    locate: L,
    session: SaveSession,
) -> bool {
    exists|name: ResolvedName, path: String|
        {
            &&& #[trigger] crate::naming::is_resolved(
                probe,
                settings.naming,
                crate::naming::stem_of(settings.naming, taken_at),
                crate::naming::stamp_of(now),
                spec_format_for(kind, settings.format).spec_extension(),
                name,
            )
            &&& #[trigger] locate.ensures((&name.file_name,), path)
            &&& is_started(
                frame,
                kind,
                source,
                settings,
                directory,
                taken_at,
                name,
                path@,
                session,
            )
        }
}

/// Starts to save a frame into a directory that is there.
///
/// `probe` says whether a file of a name is there already, `locate` gives the
/// path of a file of a name, and `now` is the present moment. Where the image
/// cannot be encoded, nothing is saved. A PNG file of no more bytes of pixels than
/// are read reads back as the very image, and the record tells the moment to the
/// millisecond where its notation can.
pub fn save_frame<P: Fn(&String) -> bool, L: Fn(&String) -> String>(
    frame: &Frame,
    kind: CaptureKind,
    source: Option<String>,
    settings: &Settings,
    directory: &str,
    taken_at: LocalTime,
    now: LocalTime,
    probe: P,
    locate: L,
) -> (r: Result<SaveSession, String>)
    requires
        forall|s: String| probe.requires((&s,)),
        forall|s: String| locate.requires((&s,)),
    ensures
        match r {
            Ok(session) => is_saving(
                frame,
                kind,
                text_view(source),
                settings@,
                directory@,
                &taken_at,
                &now,
                probe,
                locate,
                session,
            ),
            Err(e) => pixels::capture_file(
                frame.image@,
                spec_format_for(kind, settings.format),
                settings.jpeg_quality,
            ) == Err::<Seq<u8>, Seq<char>>(e@),
        },
        r is Ok <==> pixels::encodable(
            frame.image@.width,
            frame.image@.height,
            spec_format_for(kind, settings.format),
        ),
        r matches Ok(session) ==> (spec_format_for(kind, settings.format) is Png
            && frame.image@.pixels.len() <= pixels::READER_LIMIT ==> pixels::shows(
            pixels::png_picture(session.content@),
            frame.image@,
        )),
        r matches Ok(session) ==> (taken_at.is_plain() ==> crate::clock::rfc3339_millis(
            session@.record.taken_at,
        ) == Some(taken_at.spec_millis() as i64)),
        r matches Ok(session) ==> crate::naming::all_legal(session@.record.file_name),
{
    proof {
        reveal_strlit("png");
        reveal_strlit("jpg");
        assert(crate::naming::all_legal("png"@));
        assert(crate::naming::all_legal("jpg"@));
    }
    let format: ImageFormat = format_for(kind, settings.format);
    let content: Vec<u8> = match encode_capture(&frame.image, format, settings.jpeg_quality) {
        Ok(content) => content,
        Err(e) => {
            return Err(e);
        },
    };
    let name: ResolvedName = resolve(
        NameRequest { naming: &settings.naming, extension: format.extension(), taken_at },
        now,
        probe,
    );
    let path: String = locate(&name.file_name);
    let ghost chosen = name;
    let ghost located = path;
    let mut part_name: String = name.file_name.clone();
    part_name.append(".part");
    let width: u32 = frame.image.width();
    let height: u32 = frame.image.height();
    let record: CaptureRecord = CaptureRecord {
        id: id_text(&taken_at, width, height),
        path,
        file_name: name.file_name,
        width,
        height,
        taken_at: taken_at.rfc3339(),
        kind,
        source,
        bytes: 0,
        copied_to_clipboard: false,
        warnings: opening_warnings(settings.save_directory.as_str(), directory),
    };
    let session: SaveSession = SaveSession {
        stage: SaveStage::Write,
        content,
        part_name,
        counter_used: name.counter_used,
        auto_copy: settings.clipboard.auto_copy,
        record,
        error: "".to_owned(),
    };
    proof {
        assert(locate.ensures((&chosen.file_name,), located));
        assert(is_started(
            frame,
            kind,
            text_view(source),
            settings@,
            directory@,
            &taken_at,
            chosen,
            located@,
            session,
        ));
    }
    Ok(session)
}

/// Whether an area can be captured and its image then not be encoded, in these
/// words.
pub open spec fn is_unsaveable<R: FnOnce(Bounds) -> Result<Vec<u8>, String>>(
    what: (Bounds, CaptureKind, Option<Seq<char>>),
    desktop: Bounds,
    read: R,
    settings: crate::config::SettingsView,
    words: Seq<char>,
) -> bool {
    exists|frame: Frame|
        {
            &&& #[trigger] win::is_captured(what.0, desktop, read, frame)
            &&& !pixels::encodable(
                frame.image@.width,
                frame.image@.height,
                spec_format_for(what.1, settings.format),
            )
            &&& pixels::capture_file(
                frame.image@,
                spec_format_for(what.1, settings.format),
                settings.jpeg_quality,
            ) == Err::<Seq<u8>, Seq<char>>(words)
        }
}

/// Captures what a request is about and starts to save it, as [`grab`] and
/// [`save_frame`] do. The frame comes back for the clipboard.
pub fn capture_and_save<
    R: FnOnce(Bounds) -> Result<Vec<u8>, String>,
    P: Fn(&String) -> bool,
    L: Fn(&String) -> String,
>(
    request: CaptureRequest,
    screen: &Screen,
    read: R,
    settings: &Settings,
    directory: &str,
    taken_at: LocalTime,
    now: LocalTime,
    probe: P,
    locate: L,
) -> (r: Result<(Frame, SaveSession), String>)
    requires
        forall|b: Bounds| #[trigger] read.requires((b,)),
        forall|s: String| probe.requires((&s,)),
        forall|s: String| locate.requires((&s,)),
    ensures
        match wanted(request, screen) {
            Ok(what) => match r {
                Ok(begun) => {
                    &&& win::is_captured(what.0, screen.desktop.spec_as_rect(), read, begun.0)
                    &&& pixels::encodable(
                        begun.0.image@.width,
                        begun.0.image@.height,
                        spec_format_for(what.1, settings.format),
                    )
                    &&& spec_format_for(what.1, settings.format) is Png
                        && begun.0.image@.pixels.len() <= pixels::READER_LIMIT ==> pixels::shows(
                        pixels::png_picture(begun.1.content@),
                        begun.0.image@,
                    )
                    &&& crate::naming::all_legal(begun.1@.record.file_name)
                    &&& is_saving(
                        &begun.0,
                        what.1,
                        what.2,
                        settings@,
                        directory@,
                        &taken_at,
                        &now,
                        probe,
                        locate,
                        begun.1,
                    )
                },
                Err(words) => {
                    ||| is_refused(what.0, screen.desktop.spec_as_rect(), read, words@)
                    ||| {
                        &&& spec_format_for(what.1, settings.format) is Jpeg
                        &&& is_unsaveable(
                            what,
                            screen.desktop.spec_as_rect(),
                            read,
                            settings@,
                            words@,
                        )
                    }
                },
            },
            Err(words) => r matches Err(e) && e@ == words,
        },
{
    let grabbed: Grabbed = match grab(request, screen, read) {
        Ok(grabbed) => grabbed,
        Err(e) => {
            return Err(e);
        },
    };
    let frame: Frame = grabbed.frame;
    match save_frame(
        &frame,
        grabbed.kind,
        grabbed.source,
        settings,
        directory,
        taken_at,
        now,
        probe,
        locate,
    ) {
        Ok(session) => Ok((frame, session)),
        Err(e) => Err(e),
    }
}

impl CaptureRecord {
    /// Adds a warning.
    fn warn(&mut self, words: &str, why: &String)
        ensures
            final(self)@ == warned(old(self)@, words@ + why@),
    {
        let mut warning: String = words.to_owned();
        warning.append(why.as_str());
        let ghost before = texts_view(self.warnings@);
        self.warnings.push(warning);
        assert(texts_view(self.warnings@) =~= before.push(warning@));
    }
}

impl SaveSession {
    /// Goes on after an event. A written file takes its number from the settings.
    pub fn handle(&mut self, event: SaveEvent, settings: &mut Settings)
        ensures
            final(self)@ == step(old(self)@, event),
            final(self).content == old(self).content,
            final(self).part_name == old(self).part_name,
            final(settings)@ == settings_after(old(settings)@, old(self)@, event),
            final(self).stage == match (old(self).stage, event) {
                (SaveStage::Write, SaveEvent::Written(Err(_))) => SaveStage::Failed,
                (SaveStage::Write, SaveEvent::Written(Ok(_))) => if old(self).counter_used is Some {
                    SaveStage::Persist
                } else if old(self).auto_copy {
                    SaveStage::Copy
                } else {
                    SaveStage::Index
                },
                (SaveStage::Persist, SaveEvent::Persisted(_)) => if old(self).auto_copy {
                    SaveStage::Copy
                } else {
                    SaveStage::Index
                },
                (SaveStage::Copy, SaveEvent::Copied(_)) => SaveStage::Index,
                (SaveStage::Index, SaveEvent::Indexed(_)) => SaveStage::Done,
                (stage, _) => stage,
            },
            final(self).record.bytes == match (old(self).stage, event) {
                (SaveStage::Write, SaveEvent::Written(Ok(bytes))) => bytes,
                _ => old(self).record.bytes,
            },
            final(self).record.copied_to_clipboard == match (old(self).stage, event) {
                (SaveStage::Copy, SaveEvent::Copied(outcome)) => outcome is Ok,
                _ => old(self).record.copied_to_clipboard,
            },
            final(self).counter_used == old(self).counter_used,
            final(self).auto_copy == old(self).auto_copy,
            final(self).record.file_name@ == old(self).record.file_name@,
            final(self).record.path@ == old(self).record.path@,
            final(settings).naming.counter == match (old(self).stage, event, old(self).counter_used) {
                (SaveStage::Write, SaveEvent::Written(Ok(_)), Some(used)) => if used < u32::MAX {
                    used + 1
                } else {
                    used as int
                },
                _ => old(settings).naming.counter as int,
            },
    {
        match event {
            SaveEvent::Written(outcome) => {
                if let SaveStage::Write = self.stage {
                    match outcome {
                        Ok(bytes) => {
                            self.record.bytes = bytes;
                            self.stage = if let Some(used) = self.counter_used {
                                settings.naming.counter = if used == u32::MAX {
                                    used
                                } else {
                                    used + 1
                                };
                                SaveStage::Persist
                            } else {
                                next_stage(self.auto_copy)
                            };
                        },
                        Err(why) => {
                            self.stage = SaveStage::Failed;
                            self.error = why;
                        },
                    }
                }
            },
            SaveEvent::Persisted(outcome) => {
                if let SaveStage::Persist = self.stage {
                    if let Err(why) = outcome {
                        self.record.warn("Could not persist the filename counter: ", &why);
                    }
                    self.stage = next_stage(self.auto_copy);
                }
            },
            SaveEvent::Copied(outcome) => {
                if let SaveStage::Copy = self.stage {
                    match outcome {
                        Ok(_) => {
                            self.record.copied_to_clipboard = true;
                        },
                        Err(why) => {
                            self.record.warn("Could not copy to clipboard: ", &why);
                            self.record.copied_to_clipboard = false;
                        },
                    }
                    self.stage = SaveStage::Index;
                }
            },
            SaveEvent::Indexed(outcome) => {
                if let SaveStage::Index = self.stage {
                    if let Err(why) = outcome {
                        self.record.warn("Could not update the history index: ", &why);
                    }
                    self.stage = SaveStage::Done;
                }
            },
        }
    }

    /// What saving came to, once there is nothing more to do.
    pub fn finish(self) -> (r: Option<Result<CaptureRecord, String>>)
        ensures
            match self.stage {
                SaveStage::Done => r matches Some(Ok(record)) && record@ == self@.record,
                SaveStage::Failed => r matches Some(Err(e)) && e@ == self@.error,
                _ => r is None,
            },
    {
        match self.stage {
            SaveStage::Done => Some(Ok(self.record)),
            SaveStage::Failed => Some(Err(self.error)),
            _ => None,
        }
    }
}

fn next_stage(auto_copy: bool) -> (r: SaveStage)
    ensures
        r == stage_after_persist(auto_copy),
{
    if auto_copy {
        SaveStage::Copy
    } else {
        SaveStage::Index
    }
}

// ---------------------------------------------------------------------------
// Laws
// ---------------------------------------------------------------------------

/// Whether the file is on the disk.
pub open spec fn is_safe(stage: SaveStage) -> bool {
    stage is Persist || stage is Copy || stage is Index || stage is Done
}

/// How many things are left to do at most.
pub open spec fn things_left(stage: SaveStage) -> nat {
    match stage {
        SaveStage::Write => 4,
        SaveStage::Persist => 3,
        SaveStage::Copy => 2,
        SaveStage::Index => 1,
        SaveStage::Done => 0,
        SaveStage::Failed => 0,
    }
}

/// Saving after a run of events.
pub open spec fn run(v: SaveView, events: Seq<SaveEvent>) -> SaveView
    decreases events.len(),
{
    if events.len() == 0 {
        v
    } else {
        step(run(v, events.drop_last()), events.last())
    }
}

/// Once the file is written, nothing that happens can make the capture fail, and
/// nothing takes its path, its size or a warning away.
pub proof fn a_written_capture_is_never_lost(v: SaveView, events: Seq<SaveEvent>)
    requires
        is_safe(v.stage),
    ensures
        is_safe(run(v, events).stage),
        run(v, events).record.path == v.record.path,
        run(v, events).record.bytes == v.record.bytes,
        run(v, events).record.warnings.len() >= v.record.warnings.len(),
        run(v, events).record.warnings.take(v.record.warnings.len() as int) == v.record.warnings,
    decreases events.len(),
{
    if events.len() > 0 {
        let before = run(v, events.drop_last());
        a_written_capture_is_never_lost(v, events.drop_last());
        let after = step(before, events.last());
        assert(after.record.warnings.take(v.record.warnings.len() as int)
            =~= before.record.warnings.take(v.record.warnings.len() as int));
    } else {
        assert(v.record.warnings.take(v.record.warnings.len() as int) =~= v.record.warnings);
    }
}

/// The file is written before anything else is done: no other event moves a
/// capture on from there.
pub proof fn the_file_comes_first(v: SaveView, event: SaveEvent)
    requires
        v.stage is Write,
    ensures
        step(v, event) != v ==> event is Written,
        is_safe(step(v, event).stage) ==> event matches SaveEvent::Written(Ok(_)),
        event matches SaveEvent::Written(Err(why)) ==> step(v, event).stage is Failed && step(
            v,
            event,
        ).error == why@,
{
}

/// Every event that fits brings saving nearer its end.
pub proof fn saving_comes_to_an_end(v: SaveView, event: SaveEvent)
    requires
        fits(v.stage, event),
    ensures
        things_left(step(v, event).stage) < things_left(v.stage),
{
}

/// A failure after the file is written is reported with the capture, in its own
/// words, and nothing is reported where nothing failed.
pub proof fn failures_become_warnings(v: SaveView, event: SaveEvent)
    requires
        is_safe(v.stage),
        fits(v.stage, event),
    ensures
        match event {
            SaveEvent::Written(_) => true,
            SaveEvent::Persisted(outcome) => step(v, event).record.warnings == match outcome {
                Ok(_) => v.record.warnings,
                Err(why) => v.record.warnings.push(
                    "Could not persist the filename counter: "@ + why@,
                ),
            },
            SaveEvent::Copied(outcome) => step(v, event).record.warnings == match outcome {
                Ok(_) => v.record.warnings,
                Err(why) => v.record.warnings.push("Could not copy to clipboard: "@ + why@),
            },
            SaveEvent::Indexed(outcome) => step(v, event).record.warnings == match outcome {
                Ok(_) => v.record.warnings,
                Err(why) => v.record.warnings.push(
                    "Could not update the history index: "@ + why@,
                ),
            },
        },
{
}

/// Once the file is written, its number is used up: the search for the next name
/// starts after it. Every number that a name is found with has one after it.
pub proof fn a_used_number_is_not_tried_again<F: Fn(&String) -> bool>(
    probe: F,
    settings: crate::config::SettingsView,
    stem: Seq<char>,
    stamp: Seq<char>,
    extension: Seq<char>,
    name: ResolvedName,
    v: SaveView,
    bytes: u64,
)
    requires
        crate::naming::is_resolved(probe, settings.naming, stem, stamp, extension, name),
        v.stage is Write,
        v.counter_used == name.counter_used,
    ensures
        name.counter_used matches Some(n) ==> crate::naming::first_number(
            settings_after(settings, v, SaveEvent::Written(Ok(bytes))).naming,
        ) == n + 1,
{
    crate::naming::numbers_only_grow(probe, settings.naming, stem, stamp, extension, name);
}

/// A drawn shape keeps its transparency, whatever the configured format.
pub proof fn drawn_shapes_are_png(configured: ImageFormat)
    ensures
        spec_format_for(CaptureKind::Freeform, configured) == ImageFormat::Png,
{
}

/// What an event changes of a capture that is being saved. A written file leads on
/// to the settings where it took a number, else to the clipboard where copies are
/// wanted, else to the library. Stored settings lead on to the clipboard where
/// copies are wanted, else to the library. A copy, made or not, leads to the
/// library, and the library to the end. Of the record only the size, the copy and
/// the warnings change, each by its own event. Whatever is reported out of turn
/// changes nothing.
pub proof fn saving_goes_from_stage_to_stage(v: SaveView, event: SaveEvent)
    ensures
        (v.stage is Write && event is Written && event->Written_0 is Ok && v.counter_used is Some)
            ==> step(v, event).stage is Persist,
        (v.stage is Write && event is Written && event->Written_0 is Ok && v.counter_used is None
            && v.auto_copy) ==> step(v, event).stage is Copy,
        (v.stage is Write && event is Written && event->Written_0 is Ok && v.counter_used is None
            && !v.auto_copy) ==> step(v, event).stage is Index,
        (v.stage is Write && event is Written && event->Written_0 is Err) ==> step(
            v,
            event,
        ).stage is Failed && step(v, event).error == event->Written_0->Err_0@ && step(
            v,
            event,
        ).record == v.record,
        (v.stage is Persist && event is Persisted && v.auto_copy) ==> step(v, event).stage is Copy,
        (v.stage is Persist && event is Persisted && !v.auto_copy) ==> step(
            v,
            event,
        ).stage is Index,
        (v.stage is Copy && event is Copied) ==> step(v, event).stage is Index,
        (v.stage is Index && event is Indexed) ==> step(v, event).stage is Done,
        !(v.stage is Write && event is Written || v.stage is Persist && event is Persisted
            || v.stage is Copy && event is Copied || v.stage is Index && event is Indexed) ==> step(
            v,
            event,
        ) == v,
        step(v, event).counter_used == v.counter_used,
        step(v, event).auto_copy == v.auto_copy,
        !(v.stage is Write && event is Written) ==> step(v, event).error == v.error,
        (v.stage is Write && event is Written && event->Written_0 is Ok) ==> step(
            v,
            event,
        ).error == v.error,
        step(v, event).record.bytes == if v.stage is Write && event is Written
            && event->Written_0 is Ok {
            event->Written_0->Ok_0
        } else {
            v.record.bytes
        },
        step(v, event).record.copied_to_clipboard == if v.stage is Copy && event is Copied {
            event->Copied_0 is Ok
        } else {
            v.record.copied_to_clipboard
        },
        v.stage is Write ==> step(v, event).record.warnings == v.record.warnings,
        step(v, event).record.id == v.record.id,
        step(v, event).record.path == v.record.path,
        step(v, event).record.file_name == v.record.file_name,
        step(v, event).record.width == v.record.width,
        step(v, event).record.height == v.record.height,
        step(v, event).record.taken_at == v.record.taken_at,
        step(v, event).record.kind == v.record.kind,
        step(v, event).record.source == v.record.source,
{
}

/// Runs of events happen one event after the other.
pub proof fn events_come_one_by_one(v: SaveView, events: Seq<SaveEvent>, event: SaveEvent)
    ensures
        run(v, Seq::empty()) == v,
        run(v, events.push(event)) == step(run(v, events), event),
{
    assert(events.push(event).drop_last() =~= events);
}

/// The image of a capture that is saved is put on the clipboard exactly where
/// copies are wanted, whether its name has a number or not, and the record says so
/// exactly where that succeeded.
pub proof fn captures_are_copied_where_wanted(v: SaveView, events: Seq<SaveEvent>)
    requires
        v.stage is Write,
        !v.record.copied_to_clipboard,
    ensures
        run(v, events).auto_copy == v.auto_copy,
        run(v, events).stage is Done ==> (v.auto_copy <==> exists|i: int|
            0 <= i < events.len() && (#[trigger] run(v, events.take(i))).stage is Copy
                && events[i] is Copied),
        run(v, events).record.copied_to_clipboard <==> exists|i: int|
            0 <= i < events.len() && (#[trigger] run(v, events.take(i))).stage is Copy
                && events[i] is Copied && events[i]->Copied_0 is Ok,
{
    lemma_copies(v, events);
}

proof fn lemma_copies(v: SaveView, events: Seq<SaveEvent>)
    requires
        v.stage is Write,
        !v.record.copied_to_clipboard,
    ensures
        run(v, events).auto_copy == v.auto_copy,
        run(v, events).stage is Copy ==> v.auto_copy,
        (run(v, events).stage is Index || run(v, events).stage is Done) ==> (v.auto_copy
            <==> exists|i: int|
            0 <= i < events.len() && (#[trigger] run(v, events.take(i))).stage is Copy
                && events[i] is Copied),
        !(run(v, events).stage is Index || run(v, events).stage is Done) ==> !run(
            v,
            events,
        ).record.copied_to_clipboard && !exists|i: int|
            0 <= i < events.len() && (#[trigger] run(v, events.take(i))).stage is Copy
                && events[i] is Copied,
        run(v, events).record.copied_to_clipboard <==> exists|i: int|
            0 <= i < events.len() && (#[trigger] run(v, events.take(i))).stage is Copy
                && events[i] is Copied && events[i]->Copied_0 is Ok,
    decreases events.len(),
{
    if events.len() > 0 {
        let fewer = events.drop_last();
        let last = events.len() - 1;
        lemma_copies(v, fewer);
        assert(events.take(last) =~= fewer);
        assert forall|i: int| 0 <= i < last implies #[trigger] events.take(i) == fewer.take(i)
            && events[i] == fewer[i] by {
            assert(events.take(i) =~= fewer.take(i));
        }
        assert forall|i: int| 0 <= i < last implies #[trigger] run(v, events.take(i)) == run(
            v,
            fewer.take(i),
        ) by {
            assert(events.take(i) == fewer.take(i));
        }
        assert forall|i: int| 0 <= i < last implies #[trigger] run(v, fewer.take(i)) == run(
            v,
            events.take(i),
        ) by {
            assert(events.take(i) == fewer.take(i));
        }
        assert(run(v, events.take(last)) == run(v, fewer));
    }
}

/// Saving changes nothing of the settings but the number of the next name, and
/// that only where a file with a number is written.
pub proof fn only_a_numbered_file_moves_the_number(
    settings: crate::config::SettingsView,
    v: SaveView,
    event: SaveEvent,
)
    ensures
        settings_after(settings, v, event) == (crate::config::SettingsView {
            naming: crate::config::NamingView {
                counter: settings_after(settings, v, event).naming.counter,
                ..settings.naming
            },
            ..settings
        }),
        settings_after(settings, v, event).naming.counter == if v.stage is Write
            && event is Written && event->Written_0 is Ok && v.counter_used is Some
            && v.counter_used->0 < u32::MAX {
            v.counter_used->0 + 1
        } else if v.stage is Write && event is Written && event->Written_0 is Ok
            && v.counter_used is Some {
            v.counter_used->0 as int
        } else {
            settings.naming.counter as int
        },
{
}

/// A drawn shape is saved as PNG, and any other capture as the settings say.
pub proof fn formats_are_kept_but_for_shapes(kind: CaptureKind, configured: ImageFormat)
    ensures
        kind is Freeform ==> spec_format_for(kind, configured) is Png,
        kind !is Freeform ==> spec_format_for(kind, configured) == configured,
{
}

/// What a request comes to: the whole desktop where no display is named, else the
/// first display of that name, or the word that it is gone; the window in front,
/// with its title where there is one to see; or the rectangle itself, with the name
/// of the display that its corner lies on.
pub proof fn requests_are_about_what_they_name(
    request: CaptureRequest,
    screen: &Screen,
    k: int,
)
    ensures
        request is FullScreen && request->monitor_id is None ==> wanted(request, screen) is Ok
            && wanted(request, screen)->Ok_0 == (
            Bounds {
                x: screen.desktop.x,
                y: screen.desktop.y,
                width: screen.desktop.width,
                height: screen.desktop.height,
            },
            CaptureKind::FullScreen,
            Some("All displays"@),
        ),
        request is FullScreen && request->monitor_id is Some && 0 <= k < screen.monitors@.len()
            && screen.monitors@[k].id@ == request->monitor_id->0@ && (forall|i: int|
            0 <= i < k ==> (#[trigger] screen.monitors@[i]).id@ != request->monitor_id->0@)
            ==> wanted(request, screen) is Ok && wanted(request, screen)->Ok_0 == (
            Bounds {
                x: screen.monitors@[k].x,
                y: screen.monitors@[k].y,
                width: screen.monitors@[k].width,
                height: screen.monitors@[k].height,
            },
            CaptureKind::FullScreen,
            Some(screen.monitors@[k].label@),
        ),
        request is FullScreen && request->monitor_id is Some && (forall|i: int|
            0 <= i < screen.monitors@.len() ==> (#[trigger] screen.monitors@[i]).id@
                != request->monitor_id->0@) ==> wanted(request, screen) is Err && wanted(
            request,
            screen,
        )->Err_0 == "display "@ + request->monitor_id->0@ + " is no longer connected"@,
        request is ActiveWindow && front_window(screen) is None ==> wanted(request, screen) is Err
            && wanted(request, screen)->Err_0 == "no foreground window could be identified"@,
        request is ActiveWindow && front_window(screen) is Some ==> wanted(request, screen) is Ok
            && wanted(request, screen)->Ok_0.0 == front_window(screen)->0.bounds && wanted(
            request,
            screen,
        )->Ok_0.1 is ActiveWindow,
        request is ActiveWindow && front_window(screen) is Some && crate::text::is_blank(
            front_window(screen)->0.title,
        ) ==> wanted(request, screen)->Ok_0.2 is None,
        request is ActiveWindow && front_window(screen) is Some && !crate::text::is_blank(
            front_window(screen)->0.title,
        ) ==> wanted(request, screen)->Ok_0.2 == Some(front_window(screen)->0.title),
        request is Region ==> wanted(request, screen) is Ok && wanted(request, screen)->Ok_0.0
            == request->bounds && wanted(request, screen)->Ok_0.1 is Region,
        request is Region && 0 <= k < screen.monitors@.len() && screen.monitors@[k].x
            <= request->bounds.x < screen.monitors@[k].x + screen.monitors@[k].width
            && screen.monitors@[k].y <= request->bounds.y < screen.monitors@[k].y
            + screen.monitors@[k].height && (forall|i: int|
            0 <= i < k ==> !(#[trigger] screen.monitors@[i]).spec_bounds().has(
                request->bounds.x as int,
                request->bounds.y as int,
            )) ==> wanted(request, screen)->Ok_0.2 == Some(screen.monitors@[k].label@),
        request is Region && (forall|i: int|
            0 <= i < screen.monitors@.len() ==> !(#[trigger] screen.monitors@[i]).spec_bounds().has(
                request->bounds.x as int,
                request->bounds.y as int,
            )) ==> wanted(request, screen)->Ok_0.2 is None,
{
    match request {
        CaptureRequest::FullScreen { monitor_id: Some(id) } => {
            win::the_first_display_of_an_id_is_found(screen.monitors@, id@);
            let found = win::monitor_id_place(screen.monitors@, id@);
            if found < screen.monitors@.len() {
                assert(screen.monitors@[found].id@ == id@);
            }
            if 0 <= k < found {
                assert(screen.monitors@[k].id@ != id@);
            }
        },
        CaptureRequest::Region { bounds } => {
            win::monitor_place_is_first(screen.monitors@, bounds.x as int, bounds.y as int);
            let found = win::monitor_place(screen.monitors@, bounds.x as int, bounds.y as int);
            if found < screen.monitors@.len() {
                assert(screen.monitors@[found].spec_bounds().has(
                    bounds.x as int,
                    bounds.y as int,
                ));
            }
            if 0 <= k < found {
                assert(!screen.monitors@[k].spec_bounds().has(bounds.x as int, bounds.y as int));
            }
        },
        _ => {},
    }
}

/// The window in front is the foreground window where that can be captured, else
/// the topmost one that can.
pub proof fn the_foreground_window_goes_first(screen: &Screen)
    ensures
        screen.foreground is Some && screen.foreground->0.spec_target(screen.own_process) is Some
            ==> front_window(screen) == screen.foreground->0.spec_target(screen.own_process),
        screen.foreground is Some && screen.foreground->0.spec_target(screen.own_process) is None
            ==> front_window(screen) == win::topmost(screen.windows@, screen.own_process),
        screen.foreground is None ==> front_window(screen) == win::topmost(
            screen.windows@,
            screen.own_process,
        ),
{
}

/// A capture that starts to be saved has the size and the pixels of its frame, the
/// kind and the source it was taken with, the time it was taken at and, where the
/// folder is not the one in the settings, one warning that names the folder. It is
/// copied where the settings say so. Gives the name and the path.
pub proof fn a_capture_starts_out_as_taken<P: Fn(&String) -> bool, L: Fn(&String) -> String>(
    frame: &Frame,
    kind: CaptureKind,
    source: Option<Seq<char>>,
    settings: crate::config::SettingsView,
    directory: Seq<char>,
    taken_at: &LocalTime,
    now: &LocalTime,
    probe: P,
    locate: L,
    session: SaveSession,
) -> (found: (ResolvedName, String))
    requires
        is_saving(
            frame,
            kind,
            source,
            settings,
            directory,
            taken_at,
            now,
            probe,
            locate,
            session,
        ),
    ensures
        crate::naming::is_resolved(
            probe,
            settings.naming,
            crate::naming::stem_of(settings.naming, taken_at),
            crate::naming::stamp_of(now),
            if kind is Freeform || settings.format is Png {
                "png"@
            } else {
                "jpg"@
            },
            found.0,
        ),
        locate.ensures((&found.0.file_name,), found.1),
        session.record.path@ == found.1@,
        session.record.file_name@ == found.0.file_name@,
        session.counter_used == found.0.counter_used,
        session.part_name@ == found.0.file_name@ + ".part"@,
        session.stage is Write,
        session.auto_copy == settings.clipboard.auto_copy,
        session.error@.len() == 0,
        session.record.width == frame.image@.width,
        session.record.height == frame.image@.height,
        session.record.kind == kind,
        text_view(session.record.source) == source,
        session.record.bytes == 0,
        !session.record.copied_to_clipboard,
        session.record.taken_at@ == crate::clock::rfc3339_text(
            taken_at.spec_secs(),
            taken_at.spec_nanos(),
            taken_at.spec_offset(),
        ),
        session.record.id@ == crate::clock::strftime_text(
            "%Y%m%d%H%M%S%3f"@,
            taken_at.spec_secs(),
            taken_at.spec_nanos(),
            taken_at.spec_offset(),
        )->0 + "-"@ + crate::text::decimal((frame.image@.width ^ frame.image@.height) as nat),
        directory == settings.save_directory ==> session.record.warnings@.len() == 0,
        directory != settings.save_directory ==> session.record.warnings@.len() == 1
            && session.record.warnings@[0]@ == "Configured save folder was unavailable; saved to "@
            + directory + " instead."@,
        kind is Freeform || settings.format is Png ==> pixels::png_file(
            frame.image@.pixels,
            frame.image@.width,
            frame.image@.height,
        ) == Ok::<Seq<u8>, Seq<char>>(session.content@),
        kind !is Freeform && settings.format is Jpeg ==> pixels::jpeg_file(
            pixels::packed(frame.image@.pixels),
            frame.image@.width,
            frame.image@.height,
            settings.jpeg_quality,
        ) == Ok::<Seq<u8>, Seq<char>>(session.content@),
{
    reveal_strlit("");
    let (name, path) = choose|name: ResolvedName, path: String|
        {
            &&& #[trigger] crate::naming::is_resolved(
                probe,
                settings.naming,
                crate::naming::stem_of(settings.naming, taken_at),
                crate::naming::stamp_of(now),
                spec_format_for(kind, settings.format).spec_extension(),
                name,
            )
            &&& #[trigger] locate.ensures((&name.file_name,), path)
            &&& is_started(
                frame,
                kind,
                source,
                settings,
                directory,
                taken_at,
                name,
                path@,
                session,
            )
        };
    assert(texts_view(session.record.warnings@).len() == session.record.warnings@.len());
    if session.record.warnings@.len() == 1 {
        assert(texts_view(session.record.warnings@)[0] == session.record.warnings@[0]@);
    }
    (name, path)
}

/// What is grabbed shows the area, and is of the kind and from the source that the
/// request came to.
pub proof fn what_is_grabbed_is_what_was_wanted<R: FnOnce(Bounds) -> Result<Vec<u8>, String>>(
    what: (Bounds, CaptureKind, Option<Seq<char>>),
    desktop: Bounds,
    read: R,
    grabbed: Grabbed,
)
    requires
        is_grabbed(what, desktop, read, grabbed),
    ensures
        win::is_captured(what.0, desktop, read, grabbed.frame),
        grabbed.kind == what.1,
        what.2 is None <==> grabbed.source is None,
        what.2 is Some ==> grabbed.source->0@ == what.2->0,
{
}

/// A refused capture says why: that the area is empty, or what failed in reading
/// it.
pub proof fn refusals_say_why<R: FnOnce(Bounds) -> Result<Vec<u8>, String>>(
    area: Bounds,
    desktop: Bounds,
    read: R,
    words: Seq<char>,
) -> (e: CaptureError)
    requires
        is_refused(area, desktop, read, words),
    ensures
        e is EmptyArea || e is Gdi,
        e is EmptyArea ==> words == "the requested capture area is empty"@,
        e is Gdi ==> words == "Windows GDI call failed: "@ + e->Gdi_0@,
        win::is_failed_read(area, desktop, read, e) || win::is_short_read(area, desktop, read, e),
{
    choose|e: CaptureError|
        {
            &&& words == #[trigger] e.spec_message()
            &&& win::is_failed_read(area, desktop, read, e) || win::is_short_read(
                area,
                desktop,
                read,
                e,
            )
        }
}

/// What is captured and then not saved is a picture that its format has no file
/// for, and the words are those of the encoder. Gives what was captured.
pub proof fn only_encoding_stops_a_capture<R: FnOnce(Bounds) -> Result<Vec<u8>, String>>(
    what: (Bounds, CaptureKind, Option<Seq<char>>),
    desktop: Bounds,
    read: R,
    settings: crate::config::SettingsView,
    words: Seq<char>,
) -> (frame: Frame)
    requires
        is_unsaveable(what, desktop, read, settings, words),
    ensures
        win::is_captured(what.0, desktop, read, frame),
        what.1 !is Freeform && settings.format is Jpeg ==> {
            let file = pixels::jpeg_file(
                pixels::packed(frame.image@.pixels),
                frame.image@.width,
                frame.image@.height,
                settings.jpeg_quality,
            );
            file is Err && words == "encoding JPEG: "@ + file->Err_0
        },
{
    choose|frame: Frame|
        {
            &&& #[trigger] win::is_captured(what.0, desktop, read, frame)
            &&& !pixels::encodable(
                frame.image@.width,
                frame.image@.height,
                spec_format_for(what.1, settings.format),
            )
            &&& pixels::capture_file(
                frame.image@,
                spec_format_for(what.1, settings.format),
                settings.jpeg_quality,
            ) == Err::<Seq<u8>, Seq<char>>(words)
        }
}

/// Texts are shown as they are, and lists of texts one by one.
pub proof fn texts_are_shown_as_they_are(text: Option<String>, list: Seq<String>, i: int)
    ensures
        text is None <==> text_view(text) is None,
        text is Some ==> text_view(text) == Some(text->0@),
        texts_view(list).len() == list.len(),
        0 <= i < list.len() ==> texts_view(list)[i] == list[i]@,
{
}

/// What is shown of a record, of a capture that is being saved and of a target is
/// what they hold.
pub proof fn records_are_shown_as_they_are(
    record: CaptureRecord,
    session: SaveSession,
    target: Result<Target, String>,
)
    ensures
        record@.id == record.id@,
        record@.path == record.path@,
        record@.file_name == record.file_name@,
        record@.width == record.width,
        record@.height == record.height,
        record@.taken_at == record.taken_at@,
        record@.kind == record.kind,
        record@.source is None <==> record.source is None,
        record.source is Some ==> record@.source->0 == record.source->0@,
        record@.bytes == record.bytes,
        record@.copied_to_clipboard == record.copied_to_clipboard,
        record@.warnings.len() == record.warnings@.len(),
        forall|i: int|
            0 <= i < record.warnings@.len() ==> #[trigger] record@.warnings[i]
                == record.warnings@[i]@,
        session@.stage == session.stage,
        session@.counter_used == session.counter_used,
        session@.auto_copy == session.auto_copy,
        session@.record == session.record@,
        session@.error == session.error@,
        target is Ok <==> target_view(target) is Ok,
        target is Err ==> target_view(target)->Err_0 == target->Err_0@,
        target is Ok ==> {
            let shown = target_view(target)->Ok_0;
            &&& shown.0 == target->Ok_0.area
            &&& shown.1 == target->Ok_0.kind
            &&& shown.2 is None <==> target->Ok_0.source is None
            &&& target->Ok_0.source is Some ==> shown.2->0 == target->Ok_0.source->0@
        },
{
}

} // verus!
