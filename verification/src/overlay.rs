//! The overlay on which a capture is selected.
//!
//! The desktop is frozen before the overlay appears. The overlay shows a picture
//! of it, and what is saved is cut from the frozen pixels.

use vstd::prelude::*;
use vstd::string::*;

use crate::capture::mask::apply_polygon;
use crate::capture::pixels::encode_preview;
use crate::capture::win::{
    copy_monitors, copy_targets, monitor_at, Bounds, CaptureError, Frame, MonitorInfo,
    VirtualDesktop, WindowTarget,
};
use crate::capture::CaptureKind;
use crate::text::decimal_text;

verus! {

/// The window's label.
pub const OVERLAY_LABEL: &'static str = "overlay";

/// The scheme under which pictures are served.
pub const FRAME_SCHEME: &'static str = "snipd";

/// How long the desktop takes, in milliseconds, to show what was behind a window
/// that is hidden.
pub const SETTLE_MS: u64 = 140;

// ---------------------------------------------------------------------------
// Opening
// ---------------------------------------------------------------------------

/// What to do before the desktop is frozen.
#[derive(Debug)]
pub struct Opening {
    /// Hide the main window, so that it is not in the picture.
    pub hide_main: bool,
    /// Wait so many milliseconds once it is hidden.
    pub settle_ms: u64,
    /// Then wait so many milliseconds as the user asked.
    pub delay_ms: u64,
    /// The tool to start with.
    pub mode: String,
}

/// Decides how the overlay is opened.
pub fn begin_capture(main_visible: bool, delay_ms: Option<u64>, mode: Option<String>) -> (r:
    Opening)
    ensures
        r.hide_main == main_visible,
        r.settle_ms == if main_visible {
            SETTLE_MS
        } else {
            0
        },
        r.delay_ms == match delay_ms {
            Some(delay) => delay,
            None => 0,
        },
        r.mode@ == match mode {
            Some(mode) => mode@,
            None => "rectangle"@,
        },
        main_visible ==> r.settle_ms == 140,
        !main_visible ==> r.settle_ms == 0,
{
    Opening {
        hide_main: main_visible,
        settle_ms: if main_visible {
            SETTLE_MS
        } else {
            0
        },
        delay_ms: match delay_ms {
            Some(delay) => delay,
            None => 0,
        },
        mode: match mode {
            Some(mode) => mode,
            None => "rectangle".to_owned(),
        },
    }
}

// ---------------------------------------------------------------------------
// Sessions
// ---------------------------------------------------------------------------

/// All that was there when the overlay opened.
pub struct CaptureSession {
    /// The pixels that captures are cut from.
    pub frame: Frame,
    /// A picture of the same pixels to show.
    pub preview: Vec<u8>,
    /// From the topmost down.
    pub windows: Vec<WindowTarget>,
    pub monitors: Vec<MonitorInfo>,
    pub desktop: VirtualDesktop,
    /// Tells sessions apart.
    pub token: u64,
    /// The tool to start with.
    pub initial_mode: String,
}

/// What the overlay needs to show itself.
#[derive(Debug)]
pub struct OverlayState {
    pub desktop: VirtualDesktop,
    pub windows: Vec<WindowTarget>,
    pub monitors: Vec<MonitorInfo>,
    /// Where the picture of the desktop is asked for.
    pub backdrop_url: String,
    pub initial_mode: String,
}

/// A rectangle that the user selected.
#[derive(Debug)]
pub struct RectSelection {
    pub bounds: Bounds,
    pub kind: CaptureKind,
    pub source: Option<String>,
}

/// A frame to save, with what it is of.
pub struct Selected {
    pub frame: Frame,
    pub kind: CaptureKind,
    pub source: Option<String>,
}

/// Starts a session on a frozen desktop.
pub fn freeze(
    frame: Frame,
    windows: Vec<WindowTarget>,
    monitors: Vec<MonitorInfo>,
    desktop: VirtualDesktop,
    token: u64,
    initial_mode: String,
) -> (r: Result<CaptureSession, String>)
    ensures
        match r {
            Ok(session) => {
                &&& crate::capture::pixels::fits_jpeg(frame.image@.width, frame.image@.height)
                &&& crate::capture::pixels::jpeg_file(
                    crate::capture::pixels::packed(frame.image@.pixels),
                    frame.image@.width,
                    frame.image@.height,
                    82,
                ) == Ok::<Seq<u8>, Seq<char>>(session.preview@)
                &&& session.frame == frame
                &&& session.windows == windows
                &&& session.monitors == monitors
                &&& session.desktop == desktop
                &&& session.token == token
                &&& session.initial_mode == initial_mode
            },
            Err(e) => {
                &&& !crate::capture::pixels::fits_jpeg(frame.image@.width, frame.image@.height)
                &&& crate::capture::pixels::with_prefix(
                    crate::capture::pixels::jpeg_file(
                        crate::capture::pixels::packed(frame.image@.pixels),
                        frame.image@.width,
                        frame.image@.height,
                        82,
                    ),
                    "encoding overlay backdrop: "@,
                ) == Err::<Seq<u8>, Seq<char>>(e@)
            },
        },
        r is Ok <==> 0 < frame.image@.width <= 65535 && 0 < frame.image@.height <= 65535,
        r matches Err(e) ==> e@ == "encoding overlay backdrop: "@
            + crate::capture::pixels::jpeg_file(
            crate::capture::pixels::packed(frame.image@.pixels),
            frame.image@.width,
            frame.image@.height,
            82,
        )->Err_0,
{
    match encode_preview(&frame.image) {
        Ok(preview) => Ok(
            CaptureSession { frame, preview, windows, monitors, desktop, token, initial_mode },
        ),
        Err(e) => Err(e),
    }
}

/// Where the picture of a session's desktop is asked for.
pub open spec fn backdrop_url(token: u64) -> Seq<char> {
    "http://"@ + FRAME_SCHEME@ + ".localhost/backdrop?v="@ + crate::text::decimal(token as nat)
}

/// What the overlay shows of a session.
pub fn overlay_state(session: Option<&CaptureSession>) -> (r: Result<OverlayState, String>)
    ensures
        match session {
            Some(s) => {
                &&& r matches Ok(state)
                &&& state.desktop == s.desktop
                &&& crate::capture::win::targets_view(state.windows@)
                    == crate::capture::win::targets_view(s.windows@)
                &&& crate::capture::win::monitors_view(state.monitors@)
                    == crate::capture::win::monitors_view(s.monitors@)
                &&& state.backdrop_url@ == backdrop_url(s.token)
                &&& state.initial_mode@ == s.initial_mode@
            },
            None => r matches Err(e) && e@ == "no capture is in progress"@,
        },
        session matches Some(s) ==> (r matches Ok(state) ==> state.backdrop_url@ == "http://"@
            + "snipd"@ + ".localhost/backdrop?v="@ + crate::text::decimal(s.token as nat)),
{
    match session {
        Some(s) => {
            let mut url: String = "http://".to_owned();
            url.append(FRAME_SCHEME);
            url.append(".localhost/backdrop?v=");
            url.append(decimal_text(s.token).as_str());
            Ok(
                OverlayState {
                    desktop: s.desktop,
                    windows: copy_targets(&s.windows),
                    monitors: copy_monitors(&s.monitors),
                    backdrop_url: url,
                    initial_mode: s.initial_mode.clone(),
                },
            )
        },
        None => Err("no capture is in progress".to_owned()),
    }
}

/// Takes a session out, so that it cannot be used twice.
pub fn take_session(slot: &mut Option<CaptureSession>) -> (r: Result<CaptureSession, String>)
    ensures
        *final(slot) is None,
        match *old(slot) {
            Some(session) => r == Ok::<CaptureSession, String>(session),
            None => r matches Err(e) && e@ == "no capture is in progress"@,
        },
{
    match slot.take() {
        Some(session) => Ok(session),
        None => Err("no capture is in progress".to_owned()),
    }
}

/// The name of the display that a point lies on.
pub open spec fn display_name(monitors: Seq<MonitorInfo>, x: i32, y: i32) -> Option<Seq<char>> {
    let k = crate::capture::win::monitor_place(monitors, x as int, y as int);
    if k < monitors.len() {
        Some(monitors[k].label@)
    } else {
        None
    }
}

fn name_at(monitors: &Vec<MonitorInfo>, point: (i32, i32)) -> (r: Option<String>)
    ensures
        crate::capture::text_view(r) == display_name(monitors@, point.0, point.1),
{
    match monitor_at(monitors, point) {
        Some(monitor) => Some(monitor.label.clone()),
        None => None,
    }
}

/// Cuts a selected rectangle out of a session's desktop.
///
/// Where the selection does not tell what it is of, it is of the display that it
/// starts on.
pub fn capture_rect(
    session: &CaptureSession,
    selection: RectSelection,
    monitors: &Vec<MonitorInfo>,
) -> (r: Result<Selected, String>)
    ensures
        match r {
            Ok(selected) => {
                &&& session.frame.is_cut_to(selection.bounds, selected.frame)
                &&& selected.kind == selection.kind
                &&& crate::capture::text_view(selected.source) == match selection.source {
                    Some(source) => Some(source@),
                    None => display_name(monitors@, selection.bounds.x, selection.bounds.y),
                }
            },
            Err(e) => {
                &&& selection.bounds.spec_intersect(session.frame.spec_bounds()) is None
                &&& e@ == CaptureError::EmptyArea.spec_message()
            },
        },
        r matches Err(e) ==> e@ == "the requested capture area is empty"@,
{
    let frame: Frame = match session.frame.crop(selection.bounds) {
        Ok(frame) => frame,
        Err(e) => {
            return Err(e.message());
        },
    };
    let source: Option<String> = match selection.source {
        Some(source) => Some(source),
        None => name_at(monitors, (selection.bounds.x, selection.bounds.y)),
    };
    Ok(Selected { frame, kind: selection.kind, source })
}

/// Cuts a drawn shape out of a session's desktop. It is of the display that its
/// first pixel lies on.
pub fn capture_freeform<F: Fn((i32, i32), u32, u32) -> Vec<u8>>(
    session: &CaptureSession,
    corners: usize,
    extent: Bounds,
    rasterise: F,
    monitors: &Vec<MonitorInfo>,
) -> (r: Result<Selected, String>)
    requires
        forall|origin: (i32, i32), width: u32, height: u32| #[trigger]
            rasterise.requires((origin, width, height)),
    ensures
        match r {
            Ok(selected) => {
                &&& !crate::capture::mask::is_degenerate(corners, extent)
                &&& exists|cut: Frame, coverage: Vec<u8>|
                    {
                        &&& #[trigger] session.frame.is_cut_to(extent, cut)
                        &&& #[trigger] rasterise.ensures(
                            (cut.origin, cut.image@.width, cut.image@.height),
                            coverage,
                        )
                        &&& selected.frame.origin == cut.origin
                        &&& selected.frame.image@ == crate::capture::pixels::covered(
                            cut.image@,
                            coverage@,
                        )
                    }
                &&& selected.kind == CaptureKind::Freeform
                &&& crate::capture::text_view(selected.source) == display_name(
                    monitors@,
                    selected.frame.origin.0,
                    selected.frame.origin.1,
                )
            },
            Err(e) => {
                &&& e@ == CaptureError::EmptyArea.spec_message()
                &&& crate::capture::mask::is_degenerate(corners, extent) || extent.spec_intersect(
                    session.frame.spec_bounds(),
                ) is None
            },
        },
        r matches Err(e) ==> e@ == "the requested capture area is empty"@,
{
    match apply_polygon(&session.frame, corners, extent, rasterise) {
        Ok(frame) => {
            let source: Option<String> = name_at(monitors, frame.origin);
            Ok(Selected { frame, kind: CaptureKind::Freeform, source })
        },
        Err(e) => Err(e.message()),
    }
}

// ---------------------------------------------------------------------------
// Laws
// ---------------------------------------------------------------------------

/// A point has the name of the first display that holds it, and no name where none
/// does.
pub proof fn points_have_the_name_of_their_display(
    monitors: Seq<MonitorInfo>,
    x: i32,
    y: i32,
    k: int,
)
    ensures
        display_name(monitors, x, y) is None <==> forall|i: int|
            0 <= i < monitors.len() ==> !(#[trigger] monitors[i]).spec_bounds().has(
                x as int,
                y as int,
            ),
        0 <= k < monitors.len() && monitors[k].spec_bounds().has(x as int, y as int) && (forall|
            i: int,
        |
            0 <= i < k ==> !(#[trigger] monitors[i]).spec_bounds().has(x as int, y as int))
            ==> display_name(monitors, x, y) == Some(monitors[k].label@),
{
    crate::capture::win::monitor_place_is_first(monitors, x as int, y as int);
    let found = crate::capture::win::monitor_place(monitors, x as int, y as int);
    if found < monitors.len() {
        assert(monitors[found].spec_bounds().has(x as int, y as int));
    }
    if 0 <= k < found {
        assert(!monitors[k].spec_bounds().has(x as int, y as int));
    }
}

/// Sessions are told apart by their number, also in where their picture is asked for.
pub proof fn sessions_have_their_own_picture(a: u64, b: u64)
    ensures
        backdrop_url(a) == "http://"@ + "snipd"@ + ".localhost/backdrop?v="@ + crate::text::decimal(
            a as nat,
        ),
        backdrop_url(a) == backdrop_url(b) ==> a == b,
{
    if backdrop_url(a) == backdrop_url(b) {
        let head = "http://"@ + "snipd"@ + ".localhost/backdrop?v="@;
        let n = head.len() as int;
        assert(backdrop_url(a).skip(n) =~= crate::text::decimal(a as nat));
        assert(backdrop_url(b).skip(n) =~= crate::text::decimal(b as nat));
        crate::text::lemma_decimal_injective(a as nat, b as nat);
    }
}

} // verus!
