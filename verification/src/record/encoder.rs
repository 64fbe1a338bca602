//! What the video encoder is told.

use vstd::prelude::*;
use vstd::string::*;

use crate::text::decimal_text;

verus! {

/// The encoder's units of time in a second: one is a hundred nanoseconds.
pub const UNITS_PER_SECOND: i64 = 10_000_000;

/// The number of the High profile of H.264. Sharp text is what the simpler profiles
/// smear.
pub const H264_PROFILE_HIGH: u32 = 100;

/// What a video is like, and where it stands.
#[derive(Debug, Clone, Copy, PartialEq, Eq, Structural)]
pub struct Encoder {
    /// The size of the frames that are handed over.
    pub source_width: u32,
    pub source_height: u32,
    /// The size that is encoded. Both sides are even.
    pub target_width: u32,
    pub target_height: u32,
    /// The bytes from a row of a frame to the row below it. Frames are handed over
    /// from the top down, so it is never negative.
    pub stride: i64,
    /// The profile of H.264 that is asked for.
    pub profile: u32,
    /// How long a frame is shown.
    pub frame_duration: i64,
    /// How many frames were handed over.
    pub frames: u64,
}

/// One frame as the encoder takes it.
#[derive(Debug, Clone, Copy, PartialEq, Eq, Structural)]
pub struct Sample {
    /// How many bytes of the frame to copy.
    pub size: usize,
    pub time: i64,
    pub duration: i64,
}

/// The next even number down.
pub open spec fn even(n: u32) -> u32 {
    (n - n % 2) as u32
}

fn to_even(n: u32) -> (r: u32)
    ensures
        r == even(n),
{
    n - n % 2
}

/// Two numbers in one, the first in the upper half.
pub open spec fn packed_pair(high: u32, low: u32) -> int {
    high * 0x1_0000_0000 + low
}

/// Packs a size or a ratio into the one number that the encoder takes.
pub fn pack(high: u32, low: u32) -> (r: u64)
    ensures
        r == packed_pair(high, low),
        r as int / 0x1_0000_0000 == high,
        r as int % 0x1_0000_0000 == low,
{
    let wide: u64 = high as u64;
    assert((wide << 32) == wide * 0x1_0000_0000) by (bit_vector)
        requires
            wide <= 0xffff_ffff,
    ;
    let narrow: u64 = low as u64;
    assert(((wide << 32) | narrow) == (wide << 32) + narrow) by (bit_vector)
        requires
            wide <= 0xffff_ffff,
            narrow <= 0xffff_ffff,
    ;
    (wide << 32) | narrow
}

/// The words for a frame that is too short.
pub open spec fn short_frame(len: nat, expected: nat) -> Seq<char> {
    "frame is "@ + crate::text::decimal(len) + " bytes, expected "@ + crate::text::decimal(expected)
}

impl Encoder {
    /// The bytes of a frame.
    pub open spec fn frame_bytes(self) -> int {
        4 * (self.source_width * self.source_height)
    }

    /// The next frame as the encoder takes it.
    pub open spec fn next_sample(self) -> Sample {
        Sample {
            size: self.frame_bytes() as usize,
            time: (self.frames * self.frame_duration) as i64,
            duration: self.frame_duration,
        }
    }

    /// The video once a frame more was handed over.
    pub open spec fn counted(self) -> Encoder {
        Encoder { frames: (self.frames + 1) as u64, ..self }
    }

    /// Starts a video. The encoder takes even sides only.
    pub fn create(
        source_width: u32,
        source_height: u32,
        target_width: u32,
        target_height: u32,
        fps: u32,
    ) -> (r: Result<Encoder, String>)
        ensures
            if target_width <= 1 || target_height <= 1 {
                r matches Err(e) && e@ == "the recording area is too small"@
            } else {
                r matches Ok(encoder) && encoder == (Encoder {
                    source_width,
                    source_height,
                    target_width: even(target_width),
                    target_height: even(target_height),
                    stride: (4 * source_width) as i64,
                    profile: H264_PROFILE_HIGH,
                    frame_duration: (UNITS_PER_SECOND as int / if fps == 0 {
                        1
                    } else {
                        fps as int
                    }) as i64,
                    frames: 0,
                })
            },
            r is Ok <==> target_width >= 2 && target_height >= 2,
            r matches Ok(e) ==> e.target_width % 2 == 0 && e.target_width <= target_width
                < e.target_width + 2,
            r matches Ok(e) ==> e.target_height % 2 == 0 && e.target_height <= target_height
                < e.target_height + 2,
            r matches Ok(e) ==> e.source_width == source_width && e.source_height
                == source_height && e.stride == 4 * source_width && e.profile == 100 && e.frames
                == 0,
            r matches Ok(e) ==> (fps > 0 ==> e.frame_duration == 10_000_000int / fps as int),
            r matches Ok(e) ==> (fps == 0 ==> e.frame_duration == 10_000_000),
    {
        let width: u32 = to_even(target_width);
        let height: u32 = to_even(target_height);
        if width == 0 || height == 0 {
            return Err("the recording area is too small".to_owned());
        }
        let rate: u64 = if fps == 0 {
            1
        } else {
            fps as u64
        };
        let units: u64 = UNITS_PER_SECOND as u64;
        Ok(
            Encoder {
                source_width,
                source_height,
                target_width: width,
                target_height: height,
                stride: 4 * source_width as i64,
                profile: H264_PROFILE_HIGH,
                frame_duration: (units / rate) as i64,
                frames: 0,
            },
        )
    }

    /// Whether a frame of so many bytes can be handed over, and as what.
    ///
    /// Frames are timed by their number, not by the clock, so that a video always
    /// plays at the rate that was asked for.
    pub fn write_frame(&self, len: usize) -> (r: Result<Sample, String>)
        requires
            self.frame_bytes() <= usize::MAX,
            0 <= self.frame_duration,
            self.frames * self.frame_duration <= i64::MAX,
            self.frames <= i64::MAX,
        ensures
            if len < self.frame_bytes() {
                r matches Err(e) && e@ == short_frame(len as nat, self.frame_bytes() as nat)
            } else {
                r == Ok::<Sample, String>(self.next_sample())
            },
            r is Ok <==> len >= 4 * (self.source_width * self.source_height),
            r matches Ok(sample) ==> sample.size == 4 * (self.source_width * self.source_height)
                && sample.time == self.frames * self.frame_duration && sample.duration
                == self.frame_duration,
            r matches Err(e) ==> e@ == "frame is "@ + crate::text::decimal(len as nat)
                + " bytes, expected "@ + crate::text::decimal(
                (4 * (self.source_width * self.source_height)) as nat,
            ),
    {
        proof {
            assert(0 <= self.source_width * self.source_height) by (nonlinear_arith);
            assert(0 <= self.source_width * 4 * self.source_height == self.frame_bytes())
                by (nonlinear_arith)
                requires
                    self.frame_bytes() == 4 * (self.source_width * self.source_height),
            ;
        }
        let size: usize = (self.source_width as u128 * 4 * self.source_height as u128) as usize;
        if len < size {
            let mut message: String = "frame is ".to_owned();
            message.append(decimal_text(len as u64).as_str());
            message.append(" bytes, expected ");
            message.append(decimal_text(size as u64).as_str());
            return Err(message);
        }
        let count: i64 = self.frames as i64;
        Ok(Sample { size, time: count * self.frame_duration, duration: self.frame_duration })
    }

    /// Counts a frame that was handed over.
    pub fn count_frame(&mut self)
        requires
            old(self).frames < u64::MAX,
        ensures
            *final(self) == old(self).counted(),
            final(self).frames == old(self).frames + 1,
    {
        self.frames = self.frames + 1;
    }

    /// How many frames were handed over.
    pub fn frames_written(&self) -> (r: u64)
        ensures
            r == self.frames,
    {
        self.frames
    }
}

/// Where a pixel of a frame stands in its bytes, as told by the stride.
pub open spec fn told_place(e: Encoder, x: int, y: int) -> int {
    e.stride * y + 4 * x
}

/// A frame that is read by the stride it is declared with is the picture that was
/// captured, with its first row at the top.
pub proof fn frames_are_told_top_down(e: Encoder, x: int, y: int)
    requires
        e.stride == 4 * e.source_width,
        0 <= x < e.source_width,
        0 <= y < e.source_height,
    ensures
        told_place(e, x, y) == 4 * (y * e.source_width + x),
        0 <= told_place(e, x, y) <= e.frame_bytes() - 4,
{
    assert(4 * e.source_width * y == 4 * (y * e.source_width)) by (nonlinear_arith);
    assert(0 <= y * e.source_width && y * e.source_width + e.source_width <= e.source_width
        * e.source_height) by (nonlinear_arith)
        requires
            0 <= y < e.source_height,
            0 <= e.source_width,
    ;
}

/// The frames of a video follow one another without a gap and without overlap.
pub proof fn frames_follow_one_another(e: Encoder)
    requires
        e.frames < u64::MAX,
        0 <= e.frame_duration,
        (e.frames + 1) * e.frame_duration <= i64::MAX,
    ensures
        e.counted().next_sample().time == e.next_sample().time + e.next_sample().duration,
{
    assert((e.frames + 1) * e.frame_duration == e.frames * e.frame_duration + e.frame_duration)
        by (nonlinear_arith);
    assert(0 <= e.frames * e.frame_duration) by (nonlinear_arith)
        requires
            0 <= e.frame_duration,
    ;
}

/// A size can be read back from the number that it is packed into.
pub proof fn packing_loses_nothing(a: u32, b: u32, c: u32, d: u32)
    requires
        packed_pair(a, b) == packed_pair(c, d),
    ensures
        a == c,
        b == d,
{
}

/// A side is cut to the even number that is closest from below.
pub proof fn sides_are_cut_to_even(n: u32)
    ensures
        even(n) % 2 == 0,
        even(n) <= n < even(n) + 2,
{
}

/// Counting a frame changes nothing but the count, and two numbers are packed the
/// first above the second.
pub proof fn counting_changes_the_count_alone(e: Encoder, high: u32, low: u32)
    requires
        e.frames < u64::MAX,
    ensures
        e.counted() == (Encoder { frames: (e.frames + 1) as u64, ..e }),
        e.counted().frames == e.frames + 1,
        packed_pair(high, low) / 0x1_0000_0000 == high,
        packed_pair(high, low) % 0x1_0000_0000 == low,
        e.frame_bytes() == 4 * (e.source_width * e.source_height),
{
}

} // verus!
