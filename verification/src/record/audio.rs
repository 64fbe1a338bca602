//! The sound of a recording.
//!
//! The device hands over samples in a format of its own, and the encoder takes
//! sixteen bits for each. Silence is written out in full, where the device marks a
//! packet as silent and where it hands over nothing at all, so that the sound is as
//! long as the time that has passed.

use vstd::prelude::*;
use vstd::string::*;

verus! {

/// The bytes of a sample as the encoder takes it.
pub const BYTES_PER_SAMPLE: usize = 2;

/// The tag of samples in floating point.
pub const WAVE_FORMAT_IEEE_FLOAT: u16 = 0x0003;

/// The tag that points to a further description.
pub const WAVE_FORMAT_EXTENSIBLE: u16 = 0xfffe;

/// How far back a packet of the device can start, in nanoseconds: the device keeps a
/// second of sound.
pub const DEVICE_BUFFER_NS: u64 = 1_000_000_000;

/// The sound as the encoder takes it.
#[derive(Debug, Clone, Copy, PartialEq, Eq, Structural)]
pub struct AudioFormat {
    pub sample_rate: u32,
    pub channels: u16,
}

impl AudioFormat {
    /// The bytes of one sample of every channel.
    pub fn bytes_per_frame(self) -> (r: usize)
        ensures
            r == self.channels * 2,
    {
        self.channels as usize * BYTES_PER_SAMPLE
    }
}

/// A stretch of sound.
#[derive(Debug)]
pub struct AudioChunk {
    pub bytes: Vec<u8>,
}

/// How the device hands samples over.
#[derive(Debug, Clone, Copy, PartialEq, Eq, Structural)]
pub struct SourceFormat {
    pub float: bool,
    pub bits: u16,
    pub channels: u16,
}

/// The format to encode what a device plays. More than two channels are cut to
/// the first two.
pub fn probe_format(sample_rate: u32, channels: u16) -> (r: Result<AudioFormat, String>)
    ensures
        if channels == 0 || sample_rate == 0 {
            r matches Err(e) && e@ == "the playback device reported an unusable format"@
        } else {
            r == Ok::<AudioFormat, String>(
                AudioFormat {
                    sample_rate,
                    channels: if channels > 2 {
                        2
                    } else {
                        channels
                    },
                },
            )
        },
{
    let channels: u16 = if channels > 2 {
        2
    } else {
        channels
    };
    if channels == 0 || sample_rate == 0 {
        return Err("the playback device reported an unusable format".to_owned());
    }
    Ok(AudioFormat { sample_rate, channels })
}

/// How samples are handed over, told by the format's tag and, where that points to
/// a further description, by the first field of the sub-format.
pub fn describe(tag: u16, bits: u16, channels: u16, sub_format: u32) -> (r: SourceFormat)
    ensures
        r == (SourceFormat {
            float: tag == WAVE_FORMAT_IEEE_FLOAT || (tag == WAVE_FORMAT_EXTENSIBLE && sub_format
                == WAVE_FORMAT_IEEE_FLOAT),
            bits,
            channels,
        }),
        r.float <==> tag == 3 || tag == 0xfffe && sub_format == 3,
        r.bits == bits,
        r.channels == channels,
{
    let float: bool = if tag == WAVE_FORMAT_IEEE_FLOAT {
        true
    } else if tag == WAVE_FORMAT_EXTENSIBLE {
        sub_format == WAVE_FORMAT_IEEE_FLOAT as u32
    } else {
        false
    };
    SourceFormat { float, bits, channels }
}

/// The channel of the device that a channel of the recording is taken from. A
/// device with fewer channels repeats its last one.
pub open spec fn source_channel(channel: int, source: u16, target: u16) -> int {
    let shared = if source < target {
        source as int
    } else {
        target as int
    };
    if channel < shared {
        channel
    } else if shared > 0 {
        shared - 1
    } else {
        0
    }
}

/// The number of the device's sample for a sample of the recording.
pub open spec fn source_index(frame: int, channel: int, source: u16, target: u16) -> int {
    frame * source + source_channel(channel, source, target)
}

/// How many bytes of the device a sample takes up, or zero where its format is
/// not known.
pub open spec fn source_bytes(source: SourceFormat) -> int {
    if source.bits == 16 {
        2
    } else if source.bits == 32 {
        4
    } else {
        0
    }
}

/// Whether the bytes at `at` of `out` are the sample at `index` of `data`, in
/// sixteen bits.
pub open spec fn is_sample<F: Fn(u8, u8, u8, u8) -> (u8, u8)>(
    data: Seq<u8>,
    source: SourceFormat,
    index: int,
    convert: F,
    out: Seq<u8>,
    at: int,
) -> bool {
    if source.float && source.bits == 32 {
        convert.ensures(
            (
                data[4 * index],
                data[4 * index + 1],
                data[4 * index + 2],
                data[4 * index + 3],
            ),
            (out[at], out[at + 1]),
        )
    } else if source.bits == 16 {
        out[at] == data[2 * index] && out[at + 1] == data[2 * index + 1]
    } else if source.bits == 32 {
        out[at] == data[4 * index + 2] && out[at + 1] == data[4 * index + 3]
    } else {
        out[at] == 0 && out[at + 1] == 0
    }
}

/// Where a sample of the recording stands, in bytes.
pub open spec fn sample_place(frame: int, channel: int, target: u16) -> int {
    2 * (frame * target + channel)
}

/// Whether the first `n` samples of `out` are those of `data`.
pub open spec fn are_samples<F: Fn(u8, u8, u8, u8) -> (u8, u8)>(
    data: Seq<u8>,
    source: SourceFormat,
    target: AudioFormat,
    convert: F,
    out: Seq<u8>,
    frames: int,
) -> bool {
    &&& out.len() == frames * (target.channels * 2)
    &&& forall|frame: int, channel: int|
        0 <= frame < frames && 0 <= channel < target.channels ==> is_sample(
            data,
            source,
            source_index(frame, channel, source.channels, target.channels),
            convert,
            out,
            #[trigger] sample_place(frame, channel, target.channels),
        )
}

proof fn lemma_index(frame: int, frames: int, channel: int, source: u16, target: u16, width: int)
    requires
        0 <= frame < frames,
        0 <= channel < target,
        0 < source,
        0 <= width <= 4,
    ensures
        0 <= source_channel(channel, source, target) < source,
        0 <= source_index(frame, channel, source, target),
        width * source_index(frame, channel, source, target) + width <= width * (frames * source),
{
    let i = source_index(frame, channel, source, target);
    assert(i + 1 <= frames * source) by (nonlinear_arith)
        requires
            i == frame * source + source_channel(channel, source, target),
            0 <= source_channel(channel, source, target) < source,
            0 <= frame < frames,
    ;
    assert(0 <= frame * source) by (nonlinear_arith)
        requires
            0 <= frame,
            0 < source,
    ;
    assert(width * i + width <= width * (frames * source)) by (nonlinear_arith)
        requires
            i + 1 <= frames * source,
            0 <= width,
    ;
}

/// Turns samples of the device into sixteen bits each, the lower byte first.
///
/// `convert` turns the four bytes of a sample in floating point into two.
pub fn to_pcm16<F: Fn(u8, u8, u8, u8) -> (u8, u8)>(
    data: &Vec<u8>,
    frames: usize,
    source: SourceFormat,
    target: AudioFormat,
    convert: F,
) -> (r: Vec<u8>)
    requires
        source.channels > 0,
        source_bytes(source) * (frames * source.channels) <= data.len(),
        frames * source.channels <= usize::MAX,
        frames * (target.channels * 2) <= usize::MAX,
        forall|a: u8, b: u8, c: u8, d: u8| #[trigger] convert.requires((a, b, c, d)),
    ensures
        are_samples(data@, source, target, convert, r@, frames as int),
        r.len() == 2 * (frames * target.channels),
{
    let mut out: Vec<u8> = Vec::new();
    let channels: usize = target.channels as usize;
    let mut frame: usize = 0;
    while frame < frames
        invariant
            0 <= frame <= frames,
            channels == target.channels,
            source.channels > 0,
            source_bytes(source) * (frames * source.channels) <= data.len(),
            frames * source.channels <= usize::MAX,
            frames * (target.channels * 2) <= usize::MAX,
            forall|a: u8, b: u8, c: u8, d: u8| #[trigger] convert.requires((a, b, c, d)),
            are_samples(data@, source, target, convert, out@, frame as int),
        decreases frames - frame,
    {
        let mut channel: usize = 0;
        while channel < channels
            invariant
                0 <= channel <= channels,
                frame < frames,
                channels == target.channels,
                source.channels > 0,
                source_bytes(source) * (frames * source.channels) <= data.len(),
                frames * source.channels <= usize::MAX,
                forall|a: u8, b: u8, c: u8, d: u8| #[trigger] convert.requires((a, b, c, d)),
                out.len() == frame * (target.channels * 2) + 2 * channel,
                forall|f: int, c: int|
                    0 <= f < frame && 0 <= c < target.channels || f == frame && 0 <= c < channel
                        ==> is_sample(
                        data@,
                        source,
                        source_index(f, c, source.channels, target.channels),
                        convert,
                        out@,
                        #[trigger] sample_place(f, c, target.channels),
                    ),
            decreases channels - channel,
        {
            let shared: usize = if source.channels < target.channels {
                source.channels as usize
            } else {
                target.channels as usize
            };
            let from: usize = if channel < shared {
                channel
            } else {
                shared - 1
            };
            proof {
                lemma_index(
                    frame as int,
                    frames as int,
                    channel as int,
                    source.channels,
                    target.channels,
                    source_bytes(source),
                );
                lemma_index(
                    frame as int,
                    frames as int,
                    channel as int,
                    source.channels,
                    target.channels,
                    1,
                );
                assert(frame * source.channels <= frames * source.channels) by (nonlinear_arith)
                    requires
                        frame <= frames,
                ;
            }
            let index: usize = frame * source.channels as usize + from;
            let pair: (u8, u8) = if source.float && source.bits == 32 {
                convert(
                    data[4 * index],
                    data[4 * index + 1],
                    data[4 * index + 2],
                    data[4 * index + 3],
                )
            } else if source.bits == 16 {
                (data[2 * index], data[2 * index + 1])
            } else if source.bits == 32 {
                (data[4 * index + 2], data[4 * index + 3])
            } else {
                (0, 0)
            };
            let ghost before = out@;
            out.push(pair.0);
            out.push(pair.1);
            proof {
                let t = target.channels;
                assert forall|f: int, c: int|
                    0 <= f < frame && 0 <= c < t || f == frame && 0 <= c < channel
                        + 1 implies is_sample(
                    data@,
                    source,
                    source_index(f, c, source.channels, t),
                    convert,
                    out@,
                    #[trigger] sample_place(f, c, t),
                ) by {
                    let at = sample_place(f, c, t);
                    lemma_places(f, c, frame as int, channel as int, t);
                    if f < frame || c < channel {
                        assert(at + 1 < before.len());
                        assert(is_sample(
                            data@,
                            source,
                            source_index(f, c, source.channels, t),
                            convert,
                            before,
                            at,
                        ));
                        assert(out@[at] == before[at] && out@[at + 1] == before[at + 1]);
                    } else {
                        assert(at == before.len());
                    }
                }
            }
            channel += 1;
        }
        proof {
            assert((frame + 1) * (target.channels * 2) == frame * (target.channels * 2) + 2
                * target.channels) by (nonlinear_arith);
        }
        frame += 1;
    }
    proof {
        assert(frames * (target.channels * 2) == 2 * (frames * target.channels))
            by (nonlinear_arith);
    }
    out
}

/// The samples before a sample end before it starts.
proof fn lemma_places(f: int, c: int, frame: int, channel: int, target: u16)
    requires
        0 <= f <= frame,
        0 <= c < target,
        0 <= channel,
    ensures
        sample_place(f, c, target) >= 0,
        f < frame ==> sample_place(f, c, target) + 2 <= frame * (target * 2) + 2 * channel,
        f == frame ==> sample_place(f, c, target) == frame * (target * 2) + 2 * c,
{
    assert(0 <= f * target) by (nonlinear_arith)
        requires
            0 <= f,
            0 <= target,
    ;
    assert(f < frame ==> f * target + target <= frame * target) by (nonlinear_arith)
        requires
            0 <= f <= frame,
            0 <= target,
    ;
    assert(frame * (target * 2) == 2 * (frame * target)) by (nonlinear_arith);
}

/// So much silence, written out in full.
pub fn silence(frames: usize, format: AudioFormat) -> (r: Vec<u8>)
    requires
        frames * (format.channels * 2) <= usize::MAX,
    ensures
        r.len() == frames * (format.channels * 2),
        forall|i: int| 0 <= i < r.len() ==> #[trigger] r@[i] == 0,
{
    let per_frame: usize = format.bytes_per_frame();
    proof {
        assert(frames * per_frame == frames * (format.channels * 2)) by (nonlinear_arith)
            requires
                per_frame == format.channels * 2,
        ;
    }
    let bytes: Vec<u8> = vec![0u8; frames * per_frame];
    bytes
}

/// The sound of one packet of the device, or nothing where it is empty.
///
/// `data` is what the device handed over, or nothing where it marked the packet as
/// silent.
pub fn packet<F: Fn(u8, u8, u8, u8) -> (u8, u8)>(
    data: Option<&Vec<u8>>,
    frames: usize,
    source: SourceFormat,
    target: AudioFormat,
    convert: F,
) -> (r: Option<AudioChunk>)
    requires
        source.channels > 0,
        data matches Some(d) ==> source_bytes(source) * (frames * source.channels) <= d.len(),
        frames * source.channels <= usize::MAX,
        frames * (target.channels * 2) <= usize::MAX,
        forall|a: u8, b: u8, c: u8, d: u8| #[trigger] convert.requires((a, b, c, d)),
    ensures
        match r {
            None => frames == 0,
            Some(chunk) => {
                &&& frames > 0
                &&& chunk.bytes.len() == frames * (target.channels * 2)
                &&& match data {
                    Some(d) => are_samples(
                        d@,
                        source,
                        target,
                        convert,
                        chunk.bytes@,
                        frames as int,
                    ),
                    None => forall|i: int|
                        0 <= i < chunk.bytes.len() ==> #[trigger] chunk.bytes@[i] == 0,
                }
            },
        },
{
    if frames == 0 {
        return None;
    }
    let bytes: Vec<u8> = match data {
        Some(data) => to_pcm16(data, frames, source, target, convert),
        None => silence(frames, target),
    };
    Some(AudioChunk { bytes })
}

// ---------------------------------------------------------------------------
// Keeping time
// ---------------------------------------------------------------------------

/// How many frames of sound there are in so many nanoseconds.
pub open spec fn frames_in(ns: u64, sample_rate: u32) -> int {
    (ns * sample_rate) / 1_000_000_000
}

/// How many frames are missing at a moment.
pub open spec fn missing(elapsed_ns: u64, sample_rate: u32, frames_so_far: u64) -> int {
    if frames_in(elapsed_ns, sample_rate) > frames_so_far {
        frames_in(elapsed_ns, sample_rate) - frames_so_far
    } else {
        0
    }
}

/// How many frames of silence make the sound as long as the time that has passed.
pub fn gap_frames(elapsed_ns: u64, sample_rate: u32, frames_so_far: u64) -> (r: u128)
    ensures
        r == missing(elapsed_ns, sample_rate, frames_so_far),
        r > 0 ==> (frames_so_far + r) * 1_000_000_000 <= elapsed_ns * sample_rate,
        elapsed_ns * sample_rate < (frames_so_far + r + 1) * 1_000_000_000,
{
    proof {
        assert(0 <= elapsed_ns * sample_rate <= 0xffff_ffff_ffff_ffff * 0xffff_ffff)
            by (nonlinear_arith)
            requires
                0 <= elapsed_ns <= 0xffff_ffff_ffff_ffff,
                0 <= sample_rate <= 0xffff_ffff,
        ;
    }
    let due: u128 = elapsed_ns as u128 * sample_rate as u128 / 1_000_000_000;
    if due > frames_so_far as u128 {
        due - frames_so_far as u128
    } else {
        0
    }
}

/// The sound of a recording, as far as it was handed on.
#[derive(Debug, Clone, Copy, PartialEq, Eq, Structural)]
pub struct SoundTrack {
    pub format: AudioFormat,
    /// How many frames were handed on.
    pub frames: u64,
}

/// Whether `bytes` starts with so many zeroes.
pub open spec fn starts_silent(bytes: Seq<u8>, n: int) -> bool {
    &&& n <= bytes.len()
    &&& forall|i: int| 0 <= i < n ==> #[trigger] bytes[i] == 0
}

impl SoundTrack {
    /// How many frames are missing at a moment.
    pub open spec fn spec_missing(self, at_ns: u64) -> int {
        missing(at_ns, self.format.sample_rate, self.frames)
    }

    /// The bytes of the silence up to a moment.
    pub open spec fn silent_bytes(self, at_ns: u64) -> int {
        self.spec_missing(at_ns) * (self.format.channels * 2)
    }

    /// The sound once so many frames more were handed on.
    pub open spec fn longer(self, frames: int) -> SoundTrack {
        SoundTrack { frames: (self.frames + frames) as u64, ..self }
    }

    /// No sound yet.
    pub fn new(format: AudioFormat) -> (r: SoundTrack)
        ensures
            r == (SoundTrack { format, frames: 0 }),
    {
        SoundTrack { format, frames: 0 }
    }

    /// What is to be handed on when the device hands over a packet whose first
    /// frame was played at a moment: silence up to that moment, then the packet.
    /// There is nothing where both are empty.
    ///
    /// `data` is what the device handed over, or nothing where it marked the packet
    /// as silent.
    pub fn with_packet<F: Fn(u8, u8, u8, u8) -> (u8, u8)>(
        &self,
        at_ns: u64,
        data: Option<&Vec<u8>>,
        frames: usize,
        source: SourceFormat,
        convert: F,
    ) -> (r: Option<AudioChunk>)
        requires
            source.channels > 0,
            data matches Some(d) ==> source_bytes(source) * (frames * source.channels) <= d.len(),
            frames * source.channels <= usize::MAX,
            self.spec_missing(at_ns) <= usize::MAX,
            self.silent_bytes(at_ns) + frames * (self.format.channels * 2) <= usize::MAX,
            forall|a: u8, b: u8, c: u8, d: u8| #[trigger] convert.requires((a, b, c, d)),
        ensures
            match r {
                None => self.spec_missing(at_ns) == 0 && frames == 0,
                Some(chunk) => {
                    let silent = self.silent_bytes(at_ns);
                    let sound = chunk.bytes@.skip(silent);
                    &&& self.spec_missing(at_ns) + frames > 0
                    &&& starts_silent(chunk.bytes@, silent)
                    &&& sound.len() == frames * (self.format.channels * 2)
                    &&& match data {
                        Some(d) => are_samples(
                            d@,
                            source,
                            self.format,
                            convert,
                            sound,
                            frames as int,
                        ),
                        None => starts_silent(sound, sound.len() as int),
                    }
                },
            },
    {
        proof {
            assert(0 <= self.silent_bytes(at_ns)) by (nonlinear_arith)
                requires
                    self.silent_bytes(at_ns) == self.spec_missing(at_ns) * (self.format.channels
                        * 2),
                    0 <= self.spec_missing(at_ns),
                    0 <= self.format.channels,
            ;
            assert(0 <= frames * (self.format.channels * 2)) by (nonlinear_arith)
                requires
                    0 <= frames,
                    0 <= self.format.channels,
            ;
        }
        let gap: usize = gap_frames(at_ns, self.format.sample_rate, self.frames) as usize;
        if gap == 0 && frames == 0 {
            return None;
        }
        let mut bytes: Vec<u8> = silence(gap, self.format);
        let ghost quiet = bytes@;
        if let Some(mut chunk) = packet(data, frames, source, self.format, convert) {
            let ghost sound = chunk.bytes@;
            bytes.append(&mut chunk.bytes);
            assert(bytes@ =~= quiet + sound);
            assert(bytes@.skip(quiet.len() as int) =~= sound);
        } else {
            assert(bytes@.skip(quiet.len() as int) =~= seq![]);
            assert(frames * (self.format.channels * 2) == 0) by (nonlinear_arith)
                requires
                    frames == 0,
            ;
        }
        Some(AudioChunk { bytes })
    }

    /// The silence that is missing up to a moment, or nothing where none is.
    pub fn silence_until(&self, at_ns: u64) -> (r: Option<AudioChunk>)
        requires
            self.spec_missing(at_ns) <= usize::MAX,
            self.silent_bytes(at_ns) <= usize::MAX,
        ensures
            match r {
                None => self.spec_missing(at_ns) == 0,
                Some(chunk) => {
                    &&& self.spec_missing(at_ns) > 0
                    &&& chunk.bytes.len() == self.silent_bytes(at_ns)
                    &&& starts_silent(chunk.bytes@, chunk.bytes.len() as int)
                },
            },
    {
        let gap: usize = gap_frames(at_ns, self.format.sample_rate, self.frames) as usize;
        if gap == 0 {
            return None;
        }
        Some(AudioChunk { bytes: silence(gap, self.format) })
    }

    /// Counts sound of so many bytes that was handed on. What was not handed on is
    /// not counted, so that silence takes its place.
    pub fn count(&mut self, bytes: usize)
        requires
            old(self).format.channels > 0,
            old(self).frames + bytes <= u64::MAX,
        ensures
            *final(self) == old(self).longer(bytes as int / (old(self).format.channels * 2)),
            final(self).format == old(self).format,
            final(self).frames == old(self).frames + bytes as int / (old(self).format.channels * 2),
    {
        let per_frame: usize = self.format.bytes_per_frame();
        proof {
            assert(0 <= bytes as int / per_frame as int <= bytes) by (nonlinear_arith)
                requires
                    per_frame > 0,
                    0 <= bytes,
            ;
        }
        self.frames = self.frames + (bytes / per_frame) as u64;
    }
}

/// The last moment that no packet can start before any more, so many nanoseconds
/// after the start.
pub fn settled_ns(elapsed_ns: u64) -> (r: u64)
    ensures
        r == if elapsed_ns > DEVICE_BUFFER_NS {
            elapsed_ns - DEVICE_BUFFER_NS
        } else {
            0
        },
        elapsed_ns >= 1_000_000_000 ==> r + 1_000_000_000 == elapsed_ns,
        elapsed_ns < 1_000_000_000 ==> r == 0,
{
    if elapsed_ns > DEVICE_BUFFER_NS {
        elapsed_ns - DEVICE_BUFFER_NS
    } else {
        0
    }
}

// ---------------------------------------------------------------------------
// Laws
// ---------------------------------------------------------------------------

/// With the silence that is missing, the sound is exactly as long as the time that
/// has passed, unless the device has handed over more than that.
pub proof fn the_sound_is_as_long_as_the_time(track: SoundTrack, at_ns: u64)
    ensures
        track.frames <= frames_in(at_ns, track.format.sample_rate) ==> track.frames
            + track.spec_missing(at_ns) == frames_in(at_ns, track.format.sample_rate),
        track.frames + track.spec_missing(at_ns) >= frames_in(at_ns, track.format.sample_rate),
        track.frames > frames_in(at_ns, track.format.sample_rate) ==> track.spec_missing(at_ns)
            == 0,
{
}

/// A packet never stands earlier in the sound than it was played, however long the
/// device handed over nothing before it.
pub proof fn nothing_moves_earlier(track: SoundTrack, at_ns: u64, frames: nat)
    requires
        track.frames + track.spec_missing(at_ns) + frames <= u64::MAX,
    ensures
        ({
            let first = track.frames + track.spec_missing(at_ns);
            &&& first >= frames_in(at_ns, track.format.sample_rate)
            &&& track.longer(track.spec_missing(at_ns) + frames).frames == first + frames
        }),
{
}

/// The bytes that are handed on are counted as the frames that they are.
pub proof fn every_frame_is_counted(track: SoundTrack, frames: nat)
    requires
        track.format.channels > 0,
    ensures
        (frames * (track.format.channels * 2)) / (track.format.channels * 2) == frames,
{
    let per_frame = track.format.channels * 2;
    assert((frames * per_frame) / per_frame == frames) by (nonlinear_arith)
        requires
            per_frame > 0,
    ;
}

/// Each sample of the recording is the device's sample of the same frame and
/// channel, or of the last channel that both have. Four bytes in floating point are
/// handed over in their order, sixteen bits are kept, and of thirty-two bits the
/// upper sixteen are. A format that is not known is silent.
pub proof fn samples_come_from_their_place<F: Fn(u8, u8, u8, u8) -> (u8, u8)>(
    data: Seq<u8>,
    source: SourceFormat,
    target: AudioFormat,
    convert: F,
    out: Seq<u8>,
    frames: int,
    frame: int,
    channel: int,
)
    requires
        are_samples(data, source, target, convert, out, frames),
        source.channels > 0,
        0 <= frame < frames,
        0 <= channel < target.channels,
    ensures
        out.len() == 2 * (frames * target.channels),
        ({
            let shared = if source.channels < target.channels {
                source.channels
            } else {
                target.channels
            };
            let n = frame * source.channels + if channel < shared {
                channel
            } else {
                shared - 1
            };
            let at = 2 * (frame * target.channels + channel);
            &&& source.float && source.bits == 32 ==> convert.ensures(
                (data[4 * n], data[4 * n + 1], data[4 * n + 2], data[4 * n + 3]),
                (out[at], out[at + 1]),
            )
            &&& source.bits == 16 ==> out[at] == data[2 * n] && out[at + 1] == data[2 * n + 1]
            &&& !source.float && source.bits == 32 ==> out[at] == data[4 * n + 2] && out[at + 1]
                == data[4 * n + 3]
            &&& source.bits != 16 && source.bits != 32 ==> out[at] == 0 && out[at + 1] == 0
        }),
{
    let at = sample_place(frame, channel, target.channels);
    assert(is_sample(
        data,
        source,
        source_index(frame, channel, source.channels, target.channels),
        convert,
        out,
        at,
    ));
    assert(frames * (target.channels * 2) == 2 * (frames * target.channels)) by (nonlinear_arith);
}

/// What a sample takes up in bytes.
pub proof fn samples_have_a_size(source: SourceFormat)
    ensures
        source.bits == 16 ==> source_bytes(source) == 2,
        source.bits == 32 ==> source_bytes(source) == 4,
        source.bits != 16 && source.bits != 32 ==> source_bytes(source) == 0,
{
}

/// The frames in a stretch of time are as many whole ones as fit, and the silence
/// for them is two zero bytes for each channel.
pub proof fn whole_frames_are_counted(track: SoundTrack, at_ns: u64, bytes: Seq<u8>, n: int)
    ensures
        frames_in(at_ns, track.format.sample_rate) * 1_000_000_000 <= at_ns
            * track.format.sample_rate < (frames_in(at_ns, track.format.sample_rate) + 1)
            * 1_000_000_000,
        missing(at_ns, track.format.sample_rate, track.frames) == track.spec_missing(at_ns),
        frames_in(at_ns, track.format.sample_rate) >= track.frames ==> track.frames
            + track.spec_missing(at_ns) == frames_in(at_ns, track.format.sample_rate),
        frames_in(at_ns, track.format.sample_rate) < track.frames ==> track.spec_missing(at_ns)
            == 0,
        track.silent_bytes(at_ns) == 2 * (track.spec_missing(at_ns) * track.format.channels),
        starts_silent(bytes, n) <==> n <= bytes.len() && forall|i: int|
            0 <= i < n ==> #[trigger] bytes[i] == 0,
        0 <= n && track.frames + n <= u64::MAX ==> track.longer(n).frames == track.frames + n
            && track.longer(n).format == track.format,
{
    let m = track.spec_missing(at_ns);
    let c = track.format.channels;
    assert(m * (c * 2) == 2 * (m * c)) by (nonlinear_arith);
}

} // verus!
