//! Recording the screen.
//!
//! Every frame has its place on a fixed schedule. A frame that comes too late is
//! dropped and counted, so that a recording never slides out of step with time.

pub mod audio;
pub mod encoder;

use vstd::prelude::*;
use vstd::string::*;

use crate::capture::win::{Bounds, VirtualDesktop};
use crate::capture::{digits_of, CaptureKind, CaptureRecord, RecordView};
use crate::clock::LocalTime;
use crate::config::clamped;

verus! {

/// The label of the window with the stop button.
pub const BAR_LABEL: &'static str = "recorder";

/// The least width and height of a recording.
pub const MIN_EDGE: u32 = 16;

/// The most bits in a second.
pub const MAX_BITRATE: u64 = 60_000_000;

/// What to record.
#[derive(Debug, Clone, Copy, PartialEq, Eq, Structural)]
pub struct RecordingRequest {
    pub bounds: Bounds,
    pub fps: u32,
    /// How large the video is, in percent of the area.
    pub scale_percent: u32,
    pub bitrate_mbps: u32,
}

/// What a finished recording came to.
#[derive(Debug)]
pub struct RecordingOutcome {
    pub path: String,
    pub file_name: String,
    pub width: u32,
    pub height: u32,
    pub frames: u64,
    pub dropped: u64,
    pub duration_ms: u64,
    pub bytes: u64,
}

/// How a recording is getting on.
#[derive(Debug, Clone, Copy, PartialEq, Eq, Structural)]
pub struct RecordingStatus {
    pub recording: bool,
    pub elapsed_ms: u64,
    pub frames: u64,
    pub dropped: u64,
}

impl RecordingStatus {
    /// Nothing is being recorded.
    pub fn idle() -> (r: RecordingStatus)
        ensures
            r == (RecordingStatus { recording: false, elapsed_ms: 0, frames: 0, dropped: 0 }),
    {
        RecordingStatus { recording: false, elapsed_ms: 0, frames: 0, dropped: 0 }
    }
}

// ---------------------------------------------------------------------------
// Planning
// ---------------------------------------------------------------------------

/// How an area is recorded.
#[derive(Debug, Clone, Copy, PartialEq, Eq, Structural)]
pub struct RecordingPlan {
    /// The area to read, all of it on the desktop.
    pub source: Bounds,
    pub target_width: u32,
    pub target_height: u32,
    pub fps: u32,
    /// In bits per second.
    pub bitrate: u32,
}

fn clamp(n: u32, low: u32, high: u32) -> (r: u32)
    requires
        low <= high,
    ensures
        r == clamped(n as int, low as int, high as int),
{
    if n < low {
        low
    } else if n > high {
        high
    } else {
        n
    }
}

/// The side of a video, which is never too short.
pub open spec fn edge(raw: u32) -> u32 {
    if raw < MIN_EDGE {
        MIN_EDGE
    } else {
        raw
    }
}

fn at_least_min(raw: u32) -> (r: u32)
    ensures
        r == edge(raw),
{
    if raw < MIN_EDGE {
        MIN_EDGE
    } else {
        raw
    }
}

/// How many pixels a second has, as far as that can be counted.
pub open spec fn pixel_rate(width: u32, height: u32, fps: u32) -> u64 {
    let exact = width * height * fps;
    if exact > u64::MAX {
        u64::MAX
    } else {
        exact as u64
    }
}

/// How many bits a second gets: what was asked for, or what the pixels need, but
/// no more than the most.
pub open spec fn bitrate_of(mbps: u32, suggested: u64) -> int {
    let asked = clamped(mbps as int, 1, 60) * 1_000_000;
    let wanted = if asked > suggested {
        asked
    } else {
        suggested as int
    };
    if wanted > MAX_BITRATE {
        MAX_BITRATE as int
    } else {
        wanted
    }
}

/// Whether `plan` is made for its area, given what the sides scale to and how many
/// bits the pixels need.
pub open spec fn is_planned<S: Fn(u32, u32) -> u32, B: Fn(u64) -> u64>(
    request: RecordingRequest,
    scale: S,
    suggest: B,
    width: u32,
    height: u32,
    bits: u64,
    plan: RecordingPlan,
) -> bool {
    let percent = clamped(request.scale_percent as int, 25, 100) as u32;
    &&& scale.ensures((plan.source.width, percent), width)
    &&& scale.ensures((plan.source.height, percent), height)
    &&& plan.fps == clamped(request.fps as int, 5, 60)
    &&& plan.target_width == edge(width)
    &&& plan.target_height == edge(height)
    &&& suggest.ensures((pixel_rate(plan.target_width, plan.target_height, plan.fps),), bits)
    &&& plan.bitrate == bitrate_of(request.bitrate_mbps, bits)
}

/// Plans a recording.
///
/// `scale` gives a side in percent of itself, and `suggest` gives the bits that a
/// number of pixels needs.
pub fn start<S: Fn(u32, u32) -> u32, B: Fn(u64) -> u64>(
    request: RecordingRequest,
    desktop: VirtualDesktop,
    scale: S,
    suggest: B,
) -> (r: Result<RecordingPlan, String>)
    requires
        forall|side: u32, percent: u32| #[trigger] scale.requires((side, percent)),
        forall|pixels: u64| #[trigger] suggest.requires((pixels,)),
    ensures
        match r {
            Ok(plan) => {
                &&& request.bounds.spec_intersect(desktop.spec_as_rect()) == Some(plan.source)
                &&& plan.source.width >= MIN_EDGE
                &&& plan.source.height >= MIN_EDGE
                &&& exists|width: u32, height: u32, bits: u64| #[trigger]
                    is_planned(request, scale, suggest, width, height, bits, plan)
            },
            Err(e) => match request.bounds.spec_intersect(desktop.spec_as_rect()) {
                None => e@ == "the recording area is off screen"@,
                Some(source) => {
                    &&& source.width < MIN_EDGE || source.height < MIN_EDGE
                    &&& e@ == "the recording area is too small"@
                },
            },
        },
        r matches Ok(plan) ==> 16 <= plan.source.width && 16 <= plan.source.height && 16
            <= plan.target_width && 16 <= plan.target_height && 5 <= plan.fps <= 60 && 1_000_000
            <= plan.bitrate <= 60_000_000,
        r matches Ok(plan) ==> (5 <= request.fps <= 60 ==> plan.fps == request.fps),
        r is Err ==> match request.bounds.spec_intersect(desktop.spec_as_rect()) {
            None => true,
            Some(source) => source.width < 16 || source.height < 16,
        },
{
    let source: Bounds = match request.bounds.intersect(desktop.as_rect()) {
        Some(source) => source,
        None => {
            return Err("the recording area is off screen".to_owned());
        },
    };
    if source.width < MIN_EDGE || source.height < MIN_EDGE {
        return Err("the recording area is too small".to_owned());
    }
    let percent: u32 = clamp(request.scale_percent, 25, 100);
    let width: u32 = scale(source.width, percent);
    let height: u32 = scale(source.height, percent);
    let target_width: u32 = at_least_min(width);
    let target_height: u32 = at_least_min(height);
    let fps: u32 = clamp(request.fps, 5, 60);
    proof {
        assert(0 <= target_width * target_height <= 0xffff_ffff * 0xffff_ffff) by (nonlinear_arith)
            requires
                0 <= target_width <= 0xffff_ffff,
                0 <= target_height <= 0xffff_ffff,
        ;
        assert(0 <= target_width * target_height * fps <= 0xffff_ffff * 0xffff_ffff * 60)
            by (nonlinear_arith)
            requires
                0 <= target_width * target_height <= 0xffff_ffff * 0xffff_ffff,
                0 <= fps <= 60,
        ;
    }
    let exact: u128 = target_width as u128 * target_height as u128 * fps as u128;
    let pixels: u64 = if exact > 0xffff_ffff_ffff_ffff {
        0xffff_ffff_ffff_ffff
    } else {
        exact as u64
    };
    let bits: u64 = suggest(pixels);
    let asked: u64 = clamp(request.bitrate_mbps, 1, 60) as u64 * 1_000_000;
    let wanted: u64 = if asked > bits {
        asked
    } else {
        bits
    };
    let bitrate: u32 = if wanted > MAX_BITRATE {
        60_000_000
    } else {
        wanted as u32
    };
    let plan: RecordingPlan = RecordingPlan { source, target_width, target_height, fps, bitrate };
    assert(is_planned(request, scale, suggest, width, height, bits, plan));
    Ok(plan)
}

// ---------------------------------------------------------------------------
// Keeping time
// ---------------------------------------------------------------------------

/// Where a recording stands on its schedule.
#[derive(Debug, Clone, Copy, PartialEq, Eq, Structural)]
pub struct Pacer {
    /// The nanoseconds from one frame to the next.
    pub interval_ns: u64,
    /// The frame that is due, counted from zero.
    pub index: u64,
    pub written: u64,
    pub dropped: u64,
}

/// What to do now.
#[derive(Debug, Clone, Copy, PartialEq, Eq, Structural)]
pub enum Pace {
    /// Wait for so many nanoseconds, then read the frame.
    Grab(u64),
    /// Look again: frames were passed over.
    Skip,
}

impl Pacer {
    /// Every frame before the one that is due was either written or dropped.
    pub open spec fn is_kept(self) -> bool {
        &&& self.interval_ns > 0
        &&& self.written + self.dropped == self.index
    }

    /// When the frame that is due is due, in nanoseconds from the start.
    pub open spec fn deadline(self) -> int {
        self.interval_ns * self.index
    }

    /// How many frames to pass over. More than a whole frame late is too late.
    pub open spec fn behind(self, elapsed_ns: u64) -> int {
        if elapsed_ns - self.deadline() > self.interval_ns {
            (elapsed_ns - self.deadline()) / (self.interval_ns as int)
        } else {
            0
        }
    }

    /// A schedule of so many frames in a second.
    pub fn new(fps: u32) -> (r: Pacer)
        requires
            1 <= fps <= 1_000_000_000,
        ensures
            r.is_kept(),
            r == (Pacer {
                interval_ns: (1_000_000_000int / fps as int) as u64,
                index: 0,
                written: 0,
                dropped: 0,
            }),
    {
        proof {
            assert(1 <= 1_000_000_000int / fps as int) by (nonlinear_arith)
                requires
                    1 <= fps <= 1_000_000_000,
            ;
        }
        Pacer { interval_ns: 1_000_000_000 / fps as u64, index: 0, written: 0, dropped: 0 }
    }

    /// Decides what to do so many nanoseconds after the start.
    pub fn pace(&mut self, elapsed_ns: u64) -> (r: Pace)
        requires
            old(self).is_kept(),
            old(self).deadline() <= u64::MAX,
        ensures
            final(self).is_kept(),
            ({
                let behind = old(self).behind(elapsed_ns);
                &&& *final(self) == (Pacer {
                    index: (old(self).index + behind) as u64,
                    dropped: (old(self).dropped + behind) as u64,
                    ..*old(self)
                })
                &&& r == if behind > 0 {
                    Pace::Skip
                } else if elapsed_ns < old(self).deadline() {
                    Pace::Grab((old(self).deadline() - elapsed_ns) as u64)
                } else {
                    Pace::Grab(0)
                }
            }),
            final(self).deadline() <= u64::MAX,
            final(self).interval_ns == old(self).interval_ns,
            final(self).written == old(self).written,
            final(self).index - old(self).index == final(self).dropped - old(self).dropped,
            r is Skip <==> elapsed_ns > old(self).interval_ns * old(self).index
                + old(self).interval_ns,
            r is Skip <==> final(self).index > old(self).index,
            r is Skip ==> final(self).interval_ns * final(self).index <= elapsed_ns
                < final(self).interval_ns * final(self).index + final(self).interval_ns,
            r matches Pace::Grab(wait) ==> final(self).index == old(self).index && wait == if elapsed_ns
                < old(self).interval_ns * old(self).index {
                old(self).interval_ns * old(self).index - elapsed_ns
            } else {
                0
            },
    {
        let deadline: u64 = self.interval_ns * self.index;
        if elapsed_ns < deadline {
            return Pace::Grab(deadline - elapsed_ns);
        }
        let late: u64 = elapsed_ns - deadline;
        if late > self.interval_ns {
            let behind: u64 = late / self.interval_ns;
            proof {
                lemma_skip(self.interval_ns as int, self.index as int, elapsed_ns as int);
            }
            self.dropped = self.dropped + behind;
            self.index = self.index + behind;
            return Pace::Skip;
        }
        Pace::Grab(0)
    }

    /// Goes on to the next frame, after this one was written or could not be read.
    pub fn advance(&mut self, was_written: bool)
        requires
            old(self).is_kept(),
            old(self).index < u64::MAX,
        ensures
            final(self).is_kept(),
            *final(self) == (Pacer {
                index: (old(self).index + 1) as u64,
                written: if was_written {
                    (old(self).written + 1) as u64
                } else {
                    old(self).written
                },
                dropped: if was_written {
                    old(self).dropped
                } else {
                    (old(self).dropped + 1) as u64
                },
                ..*old(self)
            }),
    {
        self.index = self.index + 1;
        if was_written {
            self.written = self.written + 1;
        } else {
            self.dropped = self.dropped + 1;
        }
    }
}

/// Passing over the frames that are late leaves less than one frame's time.
proof fn lemma_skip(interval: int, index: int, elapsed: int)
    requires
        interval > 0,
        index >= 0,
        elapsed - interval * index > interval,
    ensures
        ({
            let behind = (elapsed - interval * index) / interval;
            &&& behind >= 1
            &&& 0 <= elapsed - interval * (index + behind) < interval
            &&& index + behind <= elapsed
        }),
{
    let late = elapsed - interval * index;
    let behind = late / interval;
    vstd::arithmetic::div_mod::lemma_fundamental_div_mod(late, interval);
    assert(interval * (index + behind) == interval * index + interval * behind)
        by (nonlinear_arith);
    assert(behind >= 1) by (nonlinear_arith)
        requires
            late > interval,
            interval > 0,
            late == interval * behind + late % interval,
            0 <= late % interval < interval,
    ;
    assert(index + behind <= interval * (index + behind)) by (nonlinear_arith)
        requires
            interval >= 1,
            index + behind >= 0,
    ;
}

// ---------------------------------------------------------------------------
// The stop button, and what is left in the end
// ---------------------------------------------------------------------------

/// The width of the window with the stop button.
pub const BAR_WIDTH: u32 = 268;

/// The height of that window.
pub const BAR_HEIGHT: u32 = 52;

/// Half of a number, cut toward zero.
pub open spec fn half(n: int) -> int {
    if n >= 0 {
        n / 2
    } else {
        -((-n) / 2)
    }
}

/// Where the window with the stop button goes: at the top of the desktop, in the
/// middle.
pub fn bar_position(desktop: VirtualDesktop) -> (r: (i32, i32))
    requires
        desktop.width <= i32::MAX,
        desktop.x + half(desktop.width - BAR_WIDTH) <= i32::MAX,
        desktop.x + half(desktop.width - BAR_WIDTH) >= i32::MIN,
        desktop.y + 24 <= i32::MAX,
    ensures
        r.0 == desktop.x + half(desktop.width - BAR_WIDTH),
        r.1 == desktop.y + 24,
        desktop.width >= 268 ==> 0 <= (desktop.width - 268) - 2 * (r.0 - desktop.x) <= 1,
        desktop.width < 268 ==> 0 <= 2 * (r.0 - desktop.x) - (desktop.width - 268) <= 1,
{
    let spare: i64 = desktop.width as i64 - BAR_WIDTH as i64;
    let left: i64 = if spare >= 0 {
        spare / 2
    } else {
        -((-spare) / 2)
    };
    ((desktop.x as i64 + left) as i32, desktop.y + 24)
}

/// The record of a recording that has ended.
pub open spec fn recording_record(outcome: RecordingOutcome, at: &LocalTime) -> RecordView {
    RecordView {
        id: "rec-"@ + crate::clock::strftime_text(
            "%Y%m%d%H%M%S%3f"@,
            at.spec_secs(),
            at.spec_nanos(),
            at.spec_offset(),
        )->0,
        path: outcome.path@,
        file_name: outcome.file_name@,
        width: outcome.width,
        height: outcome.height,
        taken_at: crate::clock::rfc3339_text(at.spec_secs(), at.spec_nanos(), at.spec_offset()),
        kind: CaptureKind::Recording,
        source: None,
        bytes: outcome.bytes,
        copied_to_clipboard: false,
        warnings: seq![],
    }
}

/// Tells the library of a recording that has ended at this moment.
pub fn announce_recording(outcome: &RecordingOutcome, at: &LocalTime) -> (r: CaptureRecord)
    ensures
        r@ == recording_record(*outcome, at),
        r.path@ == outcome.path@,
        r.file_name@ == outcome.file_name@,
        r.width == outcome.width,
        r.height == outcome.height,
        r.bytes == outcome.bytes,
        r.kind is Recording,
        r.source is None,
        !r.copied_to_clipboard,
        r.warnings@.len() == 0,
        r.taken_at@ == crate::clock::rfc3339_text(
            at.spec_secs(),
            at.spec_nanos(),
            at.spec_offset(),
        ),
        r.id@ == "rec-"@ + crate::clock::strftime_text(
            "%Y%m%d%H%M%S%3f"@,
            at.spec_secs(),
            at.spec_nanos(),
            at.spec_offset(),
        )->0,
{
    let mut id: String = "rec-".to_owned();
    id.append(digits_of(at).as_str());
    let warnings: Vec<String> = Vec::new();
    let record: CaptureRecord = CaptureRecord {
        id,
        path: outcome.path.clone(),
        file_name: outcome.file_name.clone(),
        width: outcome.width,
        height: outcome.height,
        taken_at: at.rfc3339(),
        kind: CaptureKind::Recording,
        source: None,
        bytes: outcome.bytes,
        copied_to_clipboard: false,
        warnings,
    };
    assert(record@.warnings =~= seq![]);
    record
}

// ---------------------------------------------------------------------------
// Laws
// ---------------------------------------------------------------------------

/// A frame is read no earlier than it is due, and at most one frame's time late.
pub proof fn frames_keep_to_the_schedule(p: Pacer, elapsed_ns: u64)
    requires
        p.is_kept(),
        p.behind(elapsed_ns) == 0,
    ensures
        ({
            let wait = if elapsed_ns < p.deadline() {
                p.deadline() - elapsed_ns
            } else {
                0
            };
            0 <= elapsed_ns + wait - p.deadline() <= p.interval_ns
        }),
{
    let late = elapsed_ns - p.deadline();
    if late > p.interval_ns {
        lemma_skip(p.interval_ns as int, p.index as int, elapsed_ns as int);
    }
}

/// Passing over frames catches up: the next frame is due now, and is read.
pub proof fn passing_over_catches_up(p: Pacer, elapsed_ns: u64)
    requires
        p.is_kept(),
        p.behind(elapsed_ns) > 0,
    ensures
        ({
            let q = Pacer {
                index: (p.index + p.behind(elapsed_ns)) as u64,
                dropped: (p.dropped + p.behind(elapsed_ns)) as u64,
                ..p
            };
            &&& q.is_kept()
            &&& q.behind(elapsed_ns) == 0
            &&& 0 <= elapsed_ns - q.deadline() < p.interval_ns
        }),
{
    lemma_skip(p.interval_ns as int, p.index as int, elapsed_ns as int);
    let n = p.index + p.behind(elapsed_ns);
    assert(n <= elapsed_ns);
}

/// The bits of a recording are never fewer than asked for, up to the most.
pub proof fn a_recording_gets_the_bits_it_needs(mbps: u32, suggested: u64)
    ensures
        1_000_000 <= bitrate_of(mbps, suggested) <= MAX_BITRATE,
        clamped(mbps as int, 1, 60) * 1_000_000 <= bitrate_of(mbps, suggested),
        suggested <= MAX_BITRATE ==> suggested <= bitrate_of(mbps, suggested),
{
}

/// A plan takes the rate, the size and the bits that were asked for, each kept
/// within its limits: 5 to 60 frames in a second, 25 to 100 percent of the area but
/// at least 16 pixels a side, and 1 to 60 million bits in a second. The bits are
/// raised to what the pixels need, up to 60 million.
pub proof fn plans_keep_within_their_limits<S: Fn(u32, u32) -> u32, B: Fn(u64) -> u64>(
    request: RecordingRequest,
    scale: S,
    suggest: B,
    width: u32,
    height: u32,
    bits: u64,
    plan: RecordingPlan,
)
    requires
        is_planned(request, scale, suggest, width, height, bits, plan),
    ensures
        5 <= plan.fps <= 60,
        request.fps < 5 ==> plan.fps == 5,
        request.fps > 60 ==> plan.fps == 60,
        5 <= request.fps <= 60 ==> plan.fps == request.fps,
        ({
            let percent = if request.scale_percent < 25 {
                25u32
            } else if request.scale_percent > 100 {
                100u32
            } else {
                request.scale_percent
            };
            &&& scale.ensures((plan.source.width, percent), width)
            &&& scale.ensures((plan.source.height, percent), height)
        }),
        width >= 16 ==> plan.target_width == width,
        width < 16 ==> plan.target_width == 16,
        height >= 16 ==> plan.target_height == height,
        height < 16 ==> plan.target_height == 16,
        ({
            let pixels = plan.target_width * plan.target_height * plan.fps;
            suggest.ensures(
                (if pixels > u64::MAX {
                    u64::MAX
                } else {
                    pixels as u64
                },),
                bits,
            )
        }),
        1_000_000 <= plan.bitrate <= 60_000_000,
        bits >= 60_000_000 ==> plan.bitrate == 60_000_000,
        request.bitrate_mbps >= 60 ==> plan.bitrate == 60_000_000,
        1 <= request.bitrate_mbps <= 60 && bits <= request.bitrate_mbps * 1_000_000 ==> plan.bitrate
            == request.bitrate_mbps * 1_000_000,
        1 <= request.bitrate_mbps <= 60 && request.bitrate_mbps * 1_000_000 < bits <= 60_000_000
            ==> plan.bitrate == bits,
        request.bitrate_mbps == 0 && bits <= 1_000_000 ==> plan.bitrate == 1_000_000,
        request.bitrate_mbps == 0 && 1_000_000 < bits <= 60_000_000 ==> plan.bitrate == bits,
{
}

/// A frame is due once the frames before it had their time. Frames are passed over
/// only where the one that is due is more than a whole frame's time late, and then
/// all that are late.
pub proof fn only_late_frames_are_passed_over(p: Pacer, elapsed_ns: u64)
    requires
        p.is_kept(),
    ensures
        p.written + p.dropped == p.index,
        p.deadline() == p.interval_ns * p.index,
        p.behind(elapsed_ns) > 0 <==> elapsed_ns > p.interval_ns * p.index + p.interval_ns,
        p.behind(elapsed_ns) >= 0,
        p.behind(elapsed_ns) > 0 ==> p.interval_ns * (p.index + p.behind(elapsed_ns)) <= elapsed_ns
            < p.interval_ns * (p.index + p.behind(elapsed_ns)) + p.interval_ns,
{
    if elapsed_ns - p.deadline() > p.interval_ns {
        lemma_skip(p.interval_ns as int, p.index as int, elapsed_ns as int);
    }
}

/// The record of a recording tells what it came to and when it ended.
pub proof fn recordings_are_told_as_they_came_out(outcome: RecordingOutcome, at: &LocalTime)
    ensures
        recording_record(outcome, at).id == "rec-"@ + crate::clock::strftime_text(
            "%Y%m%d%H%M%S%3f"@,
            at.spec_secs(),
            at.spec_nanos(),
            at.spec_offset(),
        )->0,
        recording_record(outcome, at).path == outcome.path@,
        recording_record(outcome, at).file_name == outcome.file_name@,
        recording_record(outcome, at).width == outcome.width,
        recording_record(outcome, at).height == outcome.height,
        recording_record(outcome, at).bytes == outcome.bytes,
        recording_record(outcome, at).kind is Recording,
        recording_record(outcome, at).source is None,
        !recording_record(outcome, at).copied_to_clipboard,
        recording_record(outcome, at).warnings.len() == 0,
        recording_record(outcome, at).taken_at == crate::clock::rfc3339_text(
            at.spec_secs(),
            at.spec_nanos(),
            at.spec_offset(),
        ),
{
}

/// A number is halved toward zero, and a schedule is kept where every frame before the
/// one that is due was written or dropped.
pub proof fn halves_are_cut_toward_zero(n: int, p: Pacer)
    ensures
        n >= 0 ==> 0 <= n - 2 * half(n) <= 1,
        n < 0 ==> 0 <= 2 * half(n) - n <= 1,
        p.is_kept() <==> p.interval_ns != 0 && p.index == p.written + p.dropped,
{
}

} // verus!
