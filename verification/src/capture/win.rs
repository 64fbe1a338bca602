//! The desktop: rectangles, displays and windows.
//!
//! Every rectangle is in virtual-screen coordinates, counted in physical pixels.
//! The primary display starts at the origin, so displays to the left of it or
//! above it have negative coordinates.

use vstd::prelude::*;
use vstd::string::*;

use crate::capture::pixels::{bgra_to_rgba, force_opaque, Image};
use crate::order::{stable_order, Key};
use crate::text::{decimal_text, same, trim_end, Strip};

verus! {

/// What can go wrong in reading the screen.
#[derive(Debug)]
pub enum CaptureError {
    EmptyArea,
    NoForegroundWindow,
    Gdi(String),
}

impl CaptureError {
    pub open spec fn spec_message(&self) -> Seq<char> {
        match self {
            CaptureError::EmptyArea => "the requested capture area is empty"@,
            CaptureError::NoForegroundWindow => "no foreground window could be identified"@,
            CaptureError::Gdi(detail) => "Windows GDI call failed: "@ + detail@,
        }
    }

    /// The error in words.
    pub fn message(&self) -> (r: String)
        ensures
            r@ == self.spec_message(),
            self is EmptyArea ==> r@ == "the requested capture area is empty"@,
            self is NoForegroundWindow ==> r@ == "no foreground window could be identified"@,
            self is Gdi ==> r@ == "Windows GDI call failed: "@ + self->Gdi_0@,
    {
        match self {
            CaptureError::EmptyArea => "the requested capture area is empty".to_owned(),
            CaptureError::NoForegroundWindow => {
                "no foreground window could be identified".to_owned()
            },
            CaptureError::Gdi(detail) => {
                let mut out: String = "Windows GDI call failed: ".to_owned();
                out.append(detail.as_str());
                out
            },
        }
    }
}

// ---------------------------------------------------------------------------
// Rectangles
// ---------------------------------------------------------------------------

/// A rectangle given by its edges. The right and the bottom edge lie outside.
#[derive(Debug, Clone, Copy, PartialEq, Eq, Structural)]
pub struct Rect {
    pub left: i32,
    pub top: i32,
    pub right: i32,
    pub bottom: i32,
}

/// A rectangle given by its corner and its size.
#[derive(Debug, Clone, Copy, PartialEq, Eq, Structural)]
pub struct Bounds {
    pub x: i32,
    pub y: i32,
    pub width: u32,
    pub height: u32,
}

/// A size as a signed number of the same bits.
pub open spec fn signed(size: u32) -> int {
    if size <= i32::MAX {
        size as int
    } else {
        size - 0x1_0000_0000
    }
}

fn to_signed(size: u32) -> (r: i32)
    ensures
        r == signed(size),
{
    if size <= 0x7fff_ffff {
        size as i32
    } else {
        (size as i64 - 0x1_0000_0000) as i32
    }
}

/// The distance from `low` to `high`, or zero where that is behind it.
pub open spec fn span(low: i32, high: i32) -> u32 {
    if high > low {
        (high - low) as u32
    } else {
        0
    }
}

fn distance(low: i32, high: i32) -> (r: u32)
    ensures
        r == span(low, high),
{
    if high > low {
        (high as i64 - low as i64) as u32
    } else {
        0
    }
}

impl Bounds {
    /// Where the rectangle ends on the right.
    pub open spec fn x_end(self) -> int {
        self.x + self.width
    }

    /// Where the rectangle ends at the bottom.
    pub open spec fn y_end(self) -> int {
        self.y + self.height
    }

    /// Whether a pixel lies in the rectangle.
    pub open spec fn has(self, x: int, y: int) -> bool {
        self.x <= x < self.x_end() && self.y <= y < self.y_end()
    }

    pub open spec fn spec_intersect(self, other: Bounds) -> Option<Bounds> {
        let x = vstd::math::max(self.x as int, other.x as int);
        let y = vstd::math::max(self.y as int, other.y as int);
        let right = vstd::math::min(self.x_end(), other.x_end());
        let bottom = vstd::math::min(self.y_end(), other.y_end());
        if right <= x || bottom <= y {
            None
        } else {
            Some(
                Bounds {
                    x: x as i32,
                    y: y as i32,
                    width: (right - x) as u32,
                    height: (bottom - y) as u32,
                },
            )
        }
    }

    /// The right edge.
    pub fn right(self) -> (r: i32)
        requires
            i32::MIN <= self.x + signed(self.width) <= i32::MAX,
        ensures
            r == self.x + signed(self.width),
            self.width <= 0x7fff_ffff ==> r == self.x + self.width,
            self.width > 0x7fff_ffff ==> r == self.x + self.width - 0x1_0000_0000,
    {
        self.x + to_signed(self.width)
    }

    /// The bottom edge.
    pub fn bottom(self) -> (r: i32)
        requires
            i32::MIN <= self.y + signed(self.height) <= i32::MAX,
        ensures
            r == self.y + signed(self.height),
            self.height <= 0x7fff_ffff ==> r == self.y + self.height,
            self.height > 0x7fff_ffff ==> r == self.y + self.height - 0x1_0000_0000,
    {
        self.y + to_signed(self.height)
    }

    /// Whether there is no pixel in the rectangle.
    pub fn is_empty(self) -> (r: bool)
        ensures
            r == (self.width == 0 || self.height == 0),
    {
        self.width == 0 || self.height == 0
    }

    /// The part of this rectangle that lies in the other one, if any does.
    pub fn intersect(self, other: Bounds) -> (r: Option<Bounds>)
        ensures
            r == self.spec_intersect(other),
            r matches Some(b) ==> (b.x == self.x || b.x == other.x) && b.x >= self.x && b.x
                >= other.x,
            r matches Some(b) ==> (b.y == self.y || b.y == other.y) && b.y >= self.y && b.y
                >= other.y,
            r matches Some(b) ==> (b.x + b.width == self.x + self.width || b.x + b.width == other.x
                + other.width) && b.x + b.width <= self.x + self.width && b.x + b.width <= other.x
                + other.width,
            r matches Some(b) ==> (b.y + b.height == self.y + self.height || b.y + b.height
                == other.y + other.height) && b.y + b.height <= self.y + self.height && b.y
                + b.height <= other.y + other.height,
            r matches Some(b) ==> b.width > 0 && b.height > 0,
    {
        let x: i32 = if self.x > other.x {
            self.x
        } else {
            other.x
        };
        let y: i32 = if self.y > other.y {
            self.y
        } else {
            other.y
        };
        let own_right: i64 = self.x as i64 + self.width as i64;
        let own_bottom: i64 = self.y as i64 + self.height as i64;
        let other_right: i64 = other.x as i64 + other.width as i64;
        let other_bottom: i64 = other.y as i64 + other.height as i64;
        let right: i64 = if own_right < other_right {
            own_right
        } else {
            other_right
        };
        let bottom: i64 = if own_bottom < other_bottom {
            own_bottom
        } else {
            other_bottom
        };
        if right <= x as i64 || bottom <= y as i64 {
            return None;
        }
        Some(
            Bounds {
                x,
                y,
                width: (right - x as i64) as u32,
                height: (bottom - y as i64) as u32,
            },
        )
    }

    /// The rectangle between four edges. Edges that cross give an empty one.
    pub fn from_rect(r: Rect) -> (b: Bounds)
        ensures
            b == bounds_of(r),
            b.x == r.left,
            b.y == r.top,
            r.left < r.right ==> b.x + b.width == r.right,
            r.left >= r.right ==> b.width == 0,
            r.top < r.bottom ==> b.y + b.height == r.bottom,
            r.top >= r.bottom ==> b.height == 0,
    {
        Bounds {
            x: r.left,
            y: r.top,
            width: distance(r.left, r.right),
            height: distance(r.top, r.bottom),
        }
    }

    /// Whether a pixel lies in the rectangle.
    pub fn contains(self, x: i32, y: i32) -> (r: bool)
        ensures
            r == self.has(x as int, y as int),
            r <==> self.x <= x < self.x + self.width && self.y <= y < self.y + self.height,
    {
        self.x <= x && (x as i64) < self.x as i64 + self.width as i64 && self.y <= y && (y as i64)
            < self.y as i64 + self.height as i64
    }
}

pub open spec fn bounds_of(r: Rect) -> Bounds {
    Bounds { x: r.left, y: r.top, width: span(r.left, r.right), height: span(r.top, r.bottom) }
}

/// The rectangle round all displays.
#[derive(Debug, Clone, Copy, PartialEq, Eq, Structural)]
pub struct VirtualDesktop {
    pub x: i32,
    pub y: i32,
    pub width: u32,
    pub height: u32,
}

impl VirtualDesktop {
    pub open spec fn spec_as_rect(self) -> Bounds {
        Bounds { x: self.x, y: self.y, width: self.width, height: self.height }
    }

    pub fn as_rect(self) -> (r: Bounds)
        ensures
            r == self.spec_as_rect(),
            r == (Bounds { x: self.x, y: self.y, width: self.width, height: self.height }),
    {
        Bounds { x: self.x, y: self.y, width: self.width, height: self.height }
    }
}

/// The desktop that the system's measures tell of.
pub fn virtual_desktop(x: i32, y: i32, width: i32, height: i32) -> (r: VirtualDesktop)
    ensures
        r == (VirtualDesktop { x, y, width: span(0, width), height: span(0, height) }),
        r.width == if width > 0 {
            width as int
        } else {
            0
        },
        r.height == if height > 0 {
            height as int
        } else {
            0
        },
{
    VirtualDesktop { x, y, width: distance(0, width), height: distance(0, height) }
}

// ---------------------------------------------------------------------------
// Frames
// ---------------------------------------------------------------------------

/// Pixels together with where on the desktop they came from.
#[derive(Debug)]
pub struct Frame {
    pub image: Image,
    /// The virtual-screen coordinates of the first pixel.
    pub origin: (i32, i32),
}

impl Frame {
    /// The part of the desktop that the frame shows.
    pub open spec fn spec_bounds(&self) -> Bounds {
        Bounds {
            x: self.origin.0,
            y: self.origin.1,
            width: self.image@.width,
            height: self.image@.height,
        }
    }

    /// The byte of a channel at a place on the desktop.
    pub open spec fn shown_at(&self, x: int, y: int, channel: int) -> u8 {
        self.image@.at(x - self.origin.0, y - self.origin.1, channel)
    }

    /// Whether `part` is this frame cut to `area`.
    pub open spec fn is_cut_to(&self, area: Bounds, part: Frame) -> bool {
        &&& area.spec_intersect(self.spec_bounds()) == Some(part.spec_bounds())
        &&& part.image@.is_image()
        &&& forall|x: int, y: int, c: int|
            part.spec_bounds().has(x, y) && 0 <= c < 4 ==> #[trigger] part.shown_at(x, y, c)
                == self.shown_at(x, y, c)
    }

    /// The part of the desktop that the frame shows.
    pub fn bounds(&self) -> (r: Bounds)
        ensures
            r == self.spec_bounds(),
    {
        Bounds {
            x: self.origin.0,
            y: self.origin.1,
            width: self.image.width(),
            height: self.image.height(),
        }
    }

    /// The part of the frame that lies in an area. An area that reaches past the
    /// frame gives what can be seen of it.
    pub fn crop(&self, area: Bounds) -> (r: Result<Frame, CaptureError>)
        ensures
            match r {
                Ok(part) => self.is_cut_to(area, part),
                Err(e) => e is EmptyArea && area.spec_intersect(self.spec_bounds()) is None,
            },
    {
        let clipped: Bounds = match area.intersect(self.bounds()) {
            Some(clipped) => clipped,
            None => {
                return Err(CaptureError::EmptyArea);
            },
        };
        let x: u32 = (clipped.x as i64 - self.origin.0 as i64) as u32;
        let y: u32 = (clipped.y as i64 - self.origin.1 as i64) as u32;
        let image: Image = self.image.crop(x, y, clipped.width, clipped.height);
        let part: Frame = Frame { image, origin: (clipped.x, clipped.y) };
        proof {
            assert(part.spec_bounds() == clipped);
            assert forall|px: int, py: int, c: int|
                part.spec_bounds().has(px, py) && 0 <= c < 4 implies #[trigger] part.shown_at(
                px,
                py,
                c,
            ) == self.shown_at(px, py, c) by {
                assert(part.image@.at(px - clipped.x, py - clipped.y, c) == self.image@.at(
                    x + (px - clipped.x),
                    y + (py - clipped.y),
                    c,
                ));
            }
        }
        Ok(part)
    }
}

/// Whether reading the screen can give these bytes for the part of an area that
/// lies on the desktop.
pub open spec fn is_screen_read<R: FnOnce(Bounds) -> Result<Vec<u8>, String>>(
    area: Bounds,
    desktop: Bounds,
    read: R,
    clipped: Bounds,
    bytes: Vec<u8>,
) -> bool {
    &&& area.spec_intersect(desktop) == Some(clipped)
    &&& read.ensures((clipped,), Ok(bytes))
}

/// Whether reading the part of an area that lies on the desktop can fail like
/// this.
pub open spec fn is_failed_read<R: FnOnce(Bounds) -> Result<Vec<u8>, String>>(
    area: Bounds,
    desktop: Bounds,
    read: R,
    e: CaptureError,
) -> bool {
    match e {
        CaptureError::EmptyArea => area.spec_intersect(desktop) is None,
        CaptureError::NoForegroundWindow => false,
        CaptureError::Gdi(why) => area.spec_intersect(desktop) matches Some(clipped)
            && read.ensures((clipped,), Err(why)),
    }
}

/// Reads the part of an area that lies on the desktop.
///
/// `read` gives the bytes of blue, green, red and an unused byte for each pixel,
/// from the top row down, or the words of the failure.
fn read_screen<R: FnOnce(Bounds) -> Result<Vec<u8>, String>>(
    area: Bounds,
    desktop: Bounds,
    read: R,
) -> (r: Result<(Vec<u8>, Bounds), CaptureError>)
    requires
        forall|b: Bounds| #[trigger] read.requires((b,)),
    ensures
        r matches Ok(found) ==> is_screen_read(area, desktop, read, found.1, found.0),
        r matches Err(e) ==> is_failed_read(area, desktop, read, e),
{
    let clipped: Bounds = match area.intersect(desktop) {
        Some(clipped) => clipped,
        None => {
            return Err(CaptureError::EmptyArea);
        },
    };
    match read(clipped) {
        Ok(bytes) => Ok((bytes, clipped)),
        Err(why) => Err(CaptureError::Gdi(why)),
    }
}

/// Whether `frame` is what was read of the screen, in the library's own order and
/// opaque.
pub open spec fn is_frame_of(clipped: Bounds, bytes: Seq<u8>, frame: Frame) -> bool {
    let len = 4 * crate::capture::pixels::area(clipped.width, clipped.height);
    &&& bytes.len() >= len
    &&& frame.spec_bounds() == clipped
    &&& frame.image@.is_image()
    &&& frame.image@.pixels == crate::capture::pixels::swapped_opaque(bytes).take(len)
}

/// Whether an area can fail to be captured like this because too few bytes came.
pub open spec fn is_short_read<R: FnOnce(Bounds) -> Result<Vec<u8>, String>>(
    area: Bounds,
    desktop: Bounds,
    read: R,
    e: CaptureError,
) -> bool {
    &&& e matches CaptureError::Gdi(why)
    &&& why@ == "pixel buffer did not match image size"@
    &&& exists|clipped: Bounds, bytes: Vec<u8>|
        {
            &&& #[trigger] is_screen_read(area, desktop, read, clipped, bytes)
            &&& bytes.len() < 4 * crate::capture::pixels::area(clipped.width, clipped.height)
        }
}

/// Whether `frame` is what can be read of an area of the desktop.
pub open spec fn is_captured<R: FnOnce(Bounds) -> Result<Vec<u8>, String>>(
    area: Bounds,
    desktop: Bounds,
    read: R,
    frame: Frame,
) -> bool {
    exists|bytes: Vec<u8>|
        {
            &&& #[trigger] is_screen_read(area, desktop, read, frame.spec_bounds(), bytes)
            &&& is_frame_of(frame.spec_bounds(), bytes@, frame)
        }
}

/// Whether `pixels` are what can be read of an area of the desktop, opaque.
pub open spec fn is_captured_bgra<R: FnOnce(Bounds) -> Result<Vec<u8>, String>>(
    area: Bounds,
    desktop: Bounds,
    read: R,
    pixels: Seq<u8>,
    clipped: Bounds,
) -> bool {
    exists|bytes: Vec<u8>|
        {
            &&& #[trigger] is_screen_read(area, desktop, read, clipped, bytes)
            &&& bytes.len() >= pixel_bytes(clipped)
            &&& pixels == crate::capture::pixels::opaque(bytes@.take(pixel_bytes(clipped)))
        }
}

/// How many bytes the pixels of an area take up.
pub open spec fn pixel_bytes(area: Bounds) -> int {
    4 * crate::capture::pixels::area(area.width, area.height)
}

/// Makes the pixels of an area opaque, in the order in which they were read, where
/// all of them were.
fn fit_pixels(bytes: Vec<u8>, area: Bounds) -> (r: Result<Vec<u8>, CaptureError>)
    ensures
        match r {
            Ok(pixels) => {
                &&& bytes.len() >= pixel_bytes(area)
                &&& pixels@ == crate::capture::pixels::opaque(bytes@.take(pixel_bytes(area)))
            },
            Err(e) => {
                &&& bytes.len() < pixel_bytes(area)
                &&& e matches CaptureError::Gdi(why) && why@
                    == "pixel buffer did not match image size"@
            },
        },
{
    proof {
        assert(0 <= area.width * area.height <= 0xffff_ffff * 0xffff_ffff) by (nonlinear_arith)
            requires
                0 <= area.width <= 0xffff_ffff,
                0 <= area.height <= 0xffff_ffff,
        ;
    }
    let size: u128 = area.width as u128 * area.height as u128 * 4;
    if (bytes.len() as u128) < size {
        return Err(CaptureError::Gdi("pixel buffer did not match image size".to_owned()));
    }
    let mut pixels: Vec<u8> = bytes;
    pixels.truncate(size as usize);
    assert(pixels@ =~= bytes@.take(pixel_bytes(area)));
    force_opaque(&mut pixels);
    Ok(pixels)
}

/// Captures an area of the desktop.
pub fn capture_area<R: FnOnce(Bounds) -> Result<Vec<u8>, String>>(
    area: Bounds,
    desktop: Bounds,
    read: R,
) -> (r: Result<Frame, CaptureError>)
    requires
        forall|b: Bounds| #[trigger] read.requires((b,)),
    ensures
        r matches Ok(frame) ==> is_captured(area, desktop, read, frame),
        r matches Err(e) ==> is_failed_read(area, desktop, read, e) || is_short_read(
            area,
            desktop,
            read,
            e,
        ),
{
    let (bytes, clipped): (Vec<u8>, Bounds) = match read_screen(area, desktop, read) {
        Ok(found) => found,
        Err(e) => {
            return Err(e);
        },
    };
    let ghost before = bytes;
    assert(is_screen_read(area, desktop, read, clipped, before));
    let mut rgba: Vec<u8> = bytes;
    bgra_to_rgba(&mut rgba);
    match Image::from_raw(clipped.width, clipped.height, rgba) {
        Some(image) => {
            let frame: Frame = Frame { image, origin: (clipped.x, clipped.y) };
            assert(frame.spec_bounds() == clipped);
            assert(is_captured(area, desktop, read, frame));
            Ok(frame)
        },
        None => {
            let e: CaptureError = CaptureError::Gdi(
                "pixel buffer did not match image size".to_owned(),
            );
            assert(is_short_read(area, desktop, read, e));
            Err(e)
        },
    }
}

/// Captures an area of the desktop as it was read, opaque, with the part of the
/// area that was.
pub fn capture_area_bgra<R: FnOnce(Bounds) -> Result<Vec<u8>, String>>(
    area: Bounds,
    desktop: Bounds,
    read: R,
) -> (r: Result<(Vec<u8>, Bounds), CaptureError>)
    requires
        forall|b: Bounds| #[trigger] read.requires((b,)),
    ensures
        r matches Ok(found) ==> is_captured_bgra(area, desktop, read, found.0@, found.1),
        r matches Ok(found) ==> found.0.len() == pixel_bytes(found.1),
        r matches Err(e) ==> is_failed_read(area, desktop, read, e) || is_short_read(
            area,
            desktop,
            read,
            e,
        ),
{
    let (bytes, clipped): (Vec<u8>, Bounds) = match read_screen(area, desktop, read) {
        Ok(found) => found,
        Err(e) => {
            return Err(e);
        },
    };
    let ghost before = bytes;
    assert(is_screen_read(area, desktop, read, clipped, before));
    match fit_pixels(bytes, clipped) {
        Ok(pixels) => {
            assert(is_captured_bgra(area, desktop, read, pixels@, clipped));
            Ok((pixels, clipped))
        },
        Err(e) => {
            assert(is_short_read(area, desktop, read, e));
            Err(e)
        },
    }
}

/// Captures the whole desktop.
pub fn capture_virtual_desktop<R: FnOnce(Bounds) -> Result<Vec<u8>, String>>(
    desktop: VirtualDesktop,
    read: R,
) -> (r: Result<Frame, CaptureError>)
    requires
        forall|b: Bounds| #[trigger] read.requires((b,)),
    ensures
        r matches Ok(frame) ==> is_captured(
            desktop.spec_as_rect(),
            desktop.spec_as_rect(),
            read,
            frame,
        ),
        r matches Err(e) ==> is_failed_read(
            desktop.spec_as_rect(),
            desktop.spec_as_rect(),
            read,
            e,
        ) || is_short_read(desktop.spec_as_rect(), desktop.spec_as_rect(), read, e),
{
    capture_area(desktop.as_rect(), desktop.as_rect(), read)
}

/// Reads one area over and over.
#[derive(Debug)]
pub struct FrameGrabber {
    area: Bounds,
}

impl FrameGrabber {
    pub closed spec fn spec_area(self) -> Bounds {
        self.area
    }

    /// Reads the part of an area that lies on the desktop.
    pub fn new(area: Bounds, desktop: Bounds) -> (r: Result<FrameGrabber, CaptureError>)
        ensures
            match area.spec_intersect(desktop) {
                Some(clipped) => r matches Ok(grabber) && grabber.spec_area() == clipped,
                None => r matches Err(e) && e is EmptyArea,
            },
    {
        match area.intersect(desktop) {
            Some(clipped) => Ok(FrameGrabber { area: clipped }),
            None => Err(CaptureError::EmptyArea),
        }
    }

    /// The area that is read.
    pub fn area(&self) -> (r: Bounds)
        ensures
            r == self.spec_area(),
    {
        self.area
    }

    /// Makes what was read of the area opaque, in the order in which it was read.
    pub fn grab(&self, outcome: Result<Vec<u8>, String>) -> (r: Result<Vec<u8>, CaptureError>)
        ensures
            match outcome {
                Ok(bytes) => if bytes.len() < pixel_bytes(self.spec_area()) {
                    r matches Err(CaptureError::Gdi(why)) && why@
                        == "pixel buffer did not match image size"@
                } else {
                    r matches Ok(pixels) && pixels@ == crate::capture::pixels::opaque(
                        bytes@.take(pixel_bytes(self.spec_area())),
                    )
                },
                Err(why) => r matches Err(e) && e == CaptureError::Gdi(why),
            },
            outcome matches Ok(bytes) ==> (r is Ok <==> bytes.len() >= 4 * (self.spec_area().width
                * self.spec_area().height)),
            r matches Ok(pixels) ==> (outcome matches Ok(bytes) ==> pixels.len() == 4 * (
            self.spec_area().width * self.spec_area().height) && forall|k: int|
                0 <= k < pixels.len() ==> #[trigger] pixels@[k] == if k % 4 == 3 {
                    255u8
                } else {
                    bytes@[k]
                }),
    {
        match outcome {
            Ok(bytes) => fit_pixels(bytes, self.area),
            Err(why) => Err(CaptureError::Gdi(why)),
        }
    }
}

// ---------------------------------------------------------------------------
// Text from the system
// ---------------------------------------------------------------------------

/// The characters of UTF-16 text, with U+FFFD for each half of a pair that
/// stands alone.
pub open spec fn utf16_text(units: Seq<u16>) -> Seq<char>
    decreases units.len(),
{
    if units.len() == 0 {
        seq![]
    } else if !(0xd800 <= units[0] <= 0xdfff) {
        seq![units[0] as char] + utf16_text(units.skip(1))
    } else if units[0] <= 0xdbff && units.len() >= 2 && 0xdc00 <= units[1] <= 0xdfff {
        seq![(0x10000 + (units[0] - 0xd800) * 0x400 + (units[1] - 0xdc00)) as char] + utf16_text(
            units.skip(2),
        )
    } else {
        seq!['\u{fffd}'] + utf16_text(units.skip(1))
    }
}

/// `char::from_u32` of the standard library: the character of a number, for every
/// number but those of the halves of pairs and those past the last character.
pub assume_specification[ char::from_u32 ](i: u32) -> (r: Option<char>)
    ensures
        if 0xd800 <= i <= 0xdfff || i > 0x10ffff {
            r is None
        } else {
            r == Some(i as char)
        },
;

/// Reads UTF-16 text. Pairs are joined, and each unit that has no partner becomes
/// U+FFFD.
fn decode_utf16(units: &Vec<u16>) -> (r: String)
    ensures
        r@ == utf16_text(units@),
{
    let mut text: String = String::new();
    let mut i: usize = 0;
    assert(units@.skip(0) =~= units@);
    assert(text@ + utf16_text(units@) =~= utf16_text(units@));
    while i < units.len()
        invariant
            0 <= i <= units.len(),
            utf16_text(units@) == text@ + utf16_text(units@.skip(i as int)),
        decreases units.len() - i,
    {
        let ghost rest = units@.skip(i as int);
        let ghost before = text@;
        assert(rest[0] == units@[i as int]);
        assert(rest.skip(1) =~= units@.skip(i + 1));
        let first: u32 = units[i] as u32;
        let mut code: u32 = first;
        let mut taken: usize = 1;
        if 0xd800 <= first && first <= 0xdbff && i + 1 < units.len() {
            assert(rest[1] == units@[i + 1]);
            assert(rest.skip(2) =~= units@.skip(i + 2));
            let second: u32 = units[i + 1] as u32;
            if 0xdc00 <= second && second <= 0xdfff {
                code = 0x10000 + (first - 0xd800) * 0x400 + (second - 0xdc00);
                taken = 2;
            }
        }
        let c: char = match char::from_u32(code) {
            Some(c) => c,
            None => '\u{fffd}',
        };
        text.push(c);
        assert(utf16_text(rest) == seq![c] + utf16_text(units@.skip(i + taken)));
        assert(before + utf16_text(rest) =~= text@ + utf16_text(units@.skip(i + taken)));
        i += taken;
    }
    assert(text@ + utf16_text(units@.skip(i as int)) =~= text@);
    text
}

// ---------------------------------------------------------------------------
// Displays
// ---------------------------------------------------------------------------

/// A connected display.
#[derive(Debug)]
pub struct MonitorInfo {
    /// The device path, by which a chosen display is remembered.
    pub id: String,
    /// What the user sees it called.
    pub label: String,
    pub x: i32,
    pub y: i32,
    pub width: u32,
    pub height: u32,
    /// Dots per inch. An unscaled display has 96.
    pub dpi: u32,
    pub is_primary: bool,
}

/// What a [`MonitorInfo`] holds.
pub struct MonitorView {
    pub id: Seq<char>,
    pub label: Seq<char>,
    pub bounds: Bounds,
    pub dpi: u32,
    pub is_primary: bool,
}

impl View for MonitorInfo {
    type V = MonitorView;

    open spec fn view(&self) -> MonitorView {
        MonitorView {
            id: self.id@,
            label: self.label@,
            bounds: self.spec_bounds(),
            dpi: self.dpi,
            is_primary: self.is_primary,
        }
    }
}

impl Clone for MonitorInfo {
    fn clone(&self) -> (r: Self)
        ensures
            r@ == self@,
    {
        MonitorInfo {
            id: self.id.clone(),
            label: self.label.clone(),
            x: self.x,
            y: self.y,
            width: self.width,
            height: self.height,
            dpi: self.dpi,
            is_primary: self.is_primary,
        }
    }
}

/// What a list of displays holds.
pub open spec fn monitors_view(list: Seq<MonitorInfo>) -> Seq<MonitorView> {
    list.map_values(|m: MonitorInfo| m@)
}

/// A copy of a list of displays.
pub(crate) fn copy_monitors(list: &Vec<MonitorInfo>) -> (r: Vec<MonitorInfo>)
    ensures
        monitors_view(r@) == monitors_view(list@),
{
    let mut out: Vec<MonitorInfo> = Vec::new();
    let mut i: usize = 0;
    while i < list.len()
        invariant
            0 <= i <= list.len(),
            out.len() == i,
            forall|k: int| 0 <= k < i ==> (#[trigger] out@[k])@ == list@[k]@,
        decreases list.len() - i,
    {
        out.push(list[i].clone());
        i += 1;
    }
    assert(monitors_view(out@) =~= monitors_view(list@));
    out
}

impl MonitorInfo {
    pub open spec fn spec_bounds(&self) -> Bounds {
        Bounds { x: self.x, y: self.y, width: self.width, height: self.height }
    }

    /// Where the display lies.
    pub fn bounds(&self) -> (r: Bounds)
        ensures
            r == self.spec_bounds(),
    {
        Bounds { x: self.x, y: self.y, width: self.width, height: self.height }
    }
}

/// What the system tells of a display.
pub struct MonitorFacts {
    /// The device path, filled up with NULs.
    pub device: Vec<u16>,
    pub rect: Rect,
    /// The lowest bit marks the primary display.
    pub flags: u32,
    /// Nothing where the system could not tell.
    pub dpi: Option<u32>,
}

impl MonitorFacts {
    pub open spec fn spec_is_primary(&self) -> bool {
        self.flags % 2 == 1
    }

    fn is_primary(&self) -> (r: bool)
        ensures
            r == self.spec_is_primary(),
    {
        self.flags % 2 == 1
    }

    pub open spec fn spec_key(&self) -> Key {
        (
            if self.spec_is_primary() {
                0i128
            } else {
                1i128
            },
            self.rect.left as i64,
            self.rect.top as i64,
        )
    }
}

/// What displays are put in order by: the primary one first, then from left to
/// right, then from top to bottom.
pub open spec fn monitor_keys(facts: Seq<MonitorFacts>) -> Seq<Key> {
    facts.map_values(|f: MonitorFacts| f.spec_key())
}

/// The name that the user sees for the display at place `n`.
pub open spec fn monitor_label(n: nat, bounds: Bounds, is_primary: bool) -> Seq<char> {
    "Display "@ + crate::text::decimal(n) + " - "@ + crate::text::decimal(bounds.width as nat)
        + " x "@ + crate::text::decimal(bounds.height as nat) + if is_primary {
        " (Primary)"@
    } else {
        ""@
    }
}

/// The display at place `n` in the list.
pub open spec fn described_monitor(f: MonitorFacts, n: nat) -> MonitorView {
    let bounds = bounds_of(f.rect);
    MonitorView {
        id: crate::text::trimmed_end(utf16_text(f.device@), Strip::Nul),
        label: monitor_label(n, bounds, f.spec_is_primary()),
        bounds,
        dpi: match f.dpi {
            Some(dpi) => dpi,
            None => 96,
        },
        is_primary: f.spec_is_primary(),
    }
}

fn label_text(n: usize, bounds: Bounds, is_primary: bool) -> (r: String)
    ensures
        r@ == monitor_label(n as nat, bounds, is_primary),
{
    let mut out: String = "Display ".to_owned();
    out.append(decimal_text(n as u64).as_str());
    out.append(" - ");
    out.append(decimal_text(bounds.width as u64).as_str());
    out.append(" x ");
    out.append(decimal_text(bounds.height as u64).as_str());
    out.append(
        if is_primary {
            " (Primary)"
        } else {
            ""
        },
    );
    out
}

/// Tells of the display at place `n` in the list.
fn describe_monitor(f: &MonitorFacts, n: usize) -> (r: MonitorInfo)
    ensures
        r@ == described_monitor(*f, n as nat),
{
    let bounds: Bounds = Bounds::from_rect(f.rect);
    let device: String = decode_utf16(&f.device);
    let is_primary: bool = f.is_primary();
    MonitorInfo {
        id: trim_end(device.as_str(), Strip::Nul),
        label: label_text(n, bounds, is_primary),
        x: bounds.x,
        y: bounds.y,
        width: bounds.width,
        height: bounds.height,
        dpi: match f.dpi {
            Some(dpi) => dpi,
            None => 96,
        },
        is_primary,
    }
}

/// Whether `list` holds the displays in order, each with its label.
pub open spec fn is_monitor_list(facts: Seq<MonitorFacts>, list: Seq<MonitorInfo>) -> bool {
    exists|p: Seq<usize>|
        {
            &&& #[trigger] crate::order::is_stable_order(monitor_keys(facts), p)
            &&& list.len() == facts.len()
            &&& forall|i: int|
                0 <= i < list.len() ==> (#[trigger] list[i])@ == described_monitor(
                    facts[p[i] as int],
                    (i + 1) as nat,
                )
        }
}

/// The connected displays, the primary one first, with their labels.
pub fn monitors(facts: &Vec<MonitorFacts>) -> (r: Vec<MonitorInfo>)
    ensures
        is_monitor_list(facts@, r@),
{
    let mut keys: Vec<Key> = Vec::new();
    let mut i: usize = 0;
    while i < facts.len()
        invariant
            0 <= i <= facts.len(),
            keys.len() == i,
            forall|j: int| 0 <= j < i ==> #[trigger] keys@[j] == facts@[j].spec_key(),
        decreases facts.len() - i,
    {
        let f: &MonitorFacts = &facts[i];
        let rank: i128 = if f.is_primary() {
            0
        } else {
            1
        };
        keys.push((rank, f.rect.left as i64, f.rect.top as i64));
        i += 1;
    }
    assert(keys@ =~= monitor_keys(facts@));
    let p: Vec<usize> = stable_order(&keys);
    let mut list: Vec<MonitorInfo> = Vec::new();
    let mut n: usize = 0;
    while n < p.len()
        invariant
            0 <= n <= p.len(),
            p.len() == facts.len(),
            list.len() == n,
            crate::order::is_stable_order(monitor_keys(facts@), p@),
            forall|j: int|
                0 <= j < n ==> (#[trigger] list@[j])@ == described_monitor(
                    facts@[p@[j] as int],
                    (j + 1) as nat,
                ),
        decreases p.len() - n,
    {
        list.push(describe_monitor(&facts[p[n]], n + 1));
        n += 1;
    }
    list
}

/// Where the first display that holds a point stands in the list, or the length
/// of the list where none does.
pub open spec fn monitor_place(list: Seq<MonitorInfo>, x: int, y: int) -> int
    decreases list.len(),
{
    if list.len() == 0 || list[0].spec_bounds().has(x, y) {
        0
    } else {
        1 + monitor_place(list.skip(1), x, y)
    }
}

/// The display that a point lies on.
pub fn monitor_at(list: &Vec<MonitorInfo>, point: (i32, i32)) -> (r: Option<&MonitorInfo>)
    ensures
        ({
            let k = monitor_place(list@, point.0 as int, point.1 as int);
            if k < list.len() {
                r == Some(&list@[k])
            } else {
                r is None
            }
        }),
{
    let mut i: usize = 0;
    assert(list@.skip(0) =~= list@);
    while i < list.len()
        invariant
            0 <= i <= list.len(),
            monitor_place(list@, point.0 as int, point.1 as int) == i + monitor_place(
                list@.skip(i as int),
                point.0 as int,
                point.1 as int,
            ),
        decreases list.len() - i,
    {
        assert(list@.skip(i as int)[0] == list@[i as int]);
        if list[i].bounds().contains(point.0, point.1) {
            return Some(&list[i]);
        }
        assert(list@.skip(i as int).skip(1) =~= list@.skip(i + 1));
        i += 1;
    }
    None
}

/// Where the first display of an identifier stands in the list, or the length of
/// the list where there is none.
pub open spec fn monitor_id_place(list: Seq<MonitorInfo>, id: Seq<char>) -> int
    decreases list.len(),
{
    if list.len() == 0 || list[0].id@ == id {
        0
    } else {
        1 + monitor_id_place(list.skip(1), id)
    }
}

/// The display of an identifier.
pub fn monitor_by_id<'a>(list: &'a Vec<MonitorInfo>, id: &str) -> (r: Option<&'a MonitorInfo>)
    ensures
        ({
            let k = monitor_id_place(list@, id@);
            if k < list.len() {
                r == Some(&list@[k])
            } else {
                r is None
            }
        }),
{
    let mut i: usize = 0;
    assert(list@.skip(0) =~= list@);
    while i < list.len()
        invariant
            0 <= i <= list.len(),
            monitor_id_place(list@, id@) == i + monitor_id_place(list@.skip(i as int), id@),
        decreases list.len() - i,
    {
        assert(list@.skip(i as int)[0] == list@[i as int]);
        if same(list[i].id.as_str(), id) {
            return Some(&list[i]);
        }
        assert(list@.skip(i as int).skip(1) =~= list@.skip(i + 1));
        i += 1;
    }
    None
}

// ---------------------------------------------------------------------------
// Windows
// ---------------------------------------------------------------------------

/// The bit that marks palettes and tooltips.
pub const TOOL_WINDOW: u32 = 0x80;

/// What the system tells of a top-level window.
pub struct WindowFacts {
    pub visible: bool,
    pub minimised: bool,
    /// The process that the window belongs to.
    pub process: u32,
    /// The extended style bits.
    pub ex_style: u32,
    /// Not zero for a window that is there but not shown. Nothing where the
    /// system could not tell.
    pub cloaked: Option<u32>,
    /// The frame that the user sees, where the compositor knows one.
    pub frame: Option<Rect>,
    /// The frame with its unseen border.
    pub rect: Option<Rect>,
    pub title: Vec<u16>,
}

/// A window that can be captured.
#[derive(Debug)]
pub struct WindowTarget {
    pub bounds: Bounds,
    pub title: String,
}

/// What a [`WindowTarget`] holds.
pub struct TargetView {
    pub bounds: Bounds,
    pub title: Seq<char>,
}

impl View for WindowTarget {
    type V = TargetView;

    open spec fn view(&self) -> TargetView {
        TargetView { bounds: self.bounds, title: self.title@ }
    }
}

impl Clone for WindowTarget {
    fn clone(&self) -> (r: Self)
        ensures
            r@ == self@,
    {
        WindowTarget { bounds: self.bounds, title: self.title.clone() }
    }
}

/// What a list of windows holds.
pub open spec fn targets_view(list: Seq<WindowTarget>) -> Seq<TargetView> {
    list.map_values(|t: WindowTarget| t@)
}

/// A copy of a list of windows.
pub(crate) fn copy_targets(list: &Vec<WindowTarget>) -> (r: Vec<WindowTarget>)
    ensures
        targets_view(r@) == targets_view(list@),
{
    let mut out: Vec<WindowTarget> = Vec::new();
    let mut i: usize = 0;
    while i < list.len()
        invariant
            0 <= i <= list.len(),
            out.len() == i,
            forall|k: int| 0 <= k < i ==> (#[trigger] out@[k])@ == list@[k]@,
        decreases list.len() - i,
    {
        out.push(list[i].clone());
        i += 1;
    }
    assert(targets_view(out@) =~= targets_view(list@));
    out
}

impl WindowFacts {
    /// Whether the user can mean this window.
    pub open spec fn spec_capturable(&self, own_process: u32) -> bool {
        &&& self.visible
        &&& !self.minimised
        &&& self.process != own_process
        &&& self.ex_style & TOOL_WINDOW == 0
        &&& !(self.cloaked matches Some(c) && c != 0)
    }

    pub open spec fn spec_bounds(&self) -> Option<Bounds> {
        match (self.frame, self.rect) {
            (Some(frame), _) => Some(bounds_of(frame)),
            (None, Some(rect)) => Some(bounds_of(rect)),
            (None, None) => None,
        }
    }

    pub open spec fn spec_described(&self) -> Option<TargetView> {
        match self.spec_bounds() {
            Some(bounds) => if bounds.width == 0 || bounds.height == 0 {
                None
            } else {
                Some(TargetView { bounds, title: utf16_text(self.title@) })
            },
            None => None,
        }
    }

    /// What can be captured of this window, as it stands.
    pub open spec fn spec_target(&self, own_process: u32) -> Option<TargetView> {
        if self.spec_capturable(own_process) {
            self.spec_described()
        } else {
            None
        }
    }

    /// Whether this is a visible window of another process.
    pub fn is_capturable(&self, own_process: u32) -> (r: bool)
        ensures
            r == self.spec_capturable(own_process),
    {
        if !self.visible || self.minimised {
            return false;
        }
        if self.process == own_process {
            return false;
        }
        if self.ex_style & TOOL_WINDOW != 0 {
            return false;
        }
        match self.cloaked {
            Some(c) => c == 0,
            None => true,
        }
    }

    /// The frame that the user sees.
    pub fn window_bounds(&self) -> (r: Option<Bounds>)
        ensures
            r == self.spec_bounds(),
    {
        match self.frame {
            Some(frame) => Some(Bounds::from_rect(frame)),
            None => match self.rect {
                Some(rect) => Some(Bounds::from_rect(rect)),
                None => None,
            },
        }
    }

    /// The frame and the title, where there is anything to see.
    pub fn describe_window(&self) -> (r: Option<WindowTarget>)
        ensures
            match r {
                Some(target) => self.spec_described() == Some(target@),
                None => self.spec_described() is None,
            },
    {
        let bounds: Bounds = match self.window_bounds() {
            Some(bounds) => bounds,
            None => {
                return None;
            },
        };
        if bounds.is_empty() {
            return None;
        }
        Some(WindowTarget { bounds, title: decode_utf16(&self.title) })
    }

    fn target(&self, own_process: u32) -> (r: Option<WindowTarget>)
        ensures
            match r {
                Some(target) => self.spec_target(own_process) == Some(target@),
                None => self.spec_target(own_process) is None,
            },
    {
        if self.is_capturable(own_process) {
            self.describe_window()
        } else {
            None
        }
    }
}

/// The windows to offer, clipped to the desktop, in the order they are given in.
pub open spec fn offered(
    windows: Seq<WindowFacts>,
    own_process: u32,
    desktop: Bounds,
) -> Seq<TargetView>
    decreases windows.len(),
{
    if windows.len() == 0 {
        seq![]
    } else {
        let rest = offered(windows.drop_last(), own_process, desktop);
        match windows.last().spec_target(own_process) {
            Some(target) => match target.bounds.spec_intersect(desktop) {
                Some(clipped) => rest.push(TargetView { bounds: clipped, title: target.title }),
                None => rest,
            },
            None => rest,
        }
    }
}

/// The windows that can be captured, given from the topmost down.
pub fn capturable_windows(windows: &Vec<WindowFacts>, own_process: u32, desktop: Bounds) -> (r: Vec<
    WindowTarget,
>)
    ensures
        targets_view(r@) == offered(windows@, own_process, desktop),
{
    let mut targets: Vec<WindowTarget> = Vec::new();
    let mut i: usize = 0;
    assert(windows@.take(0) =~= seq![]);
    while i < windows.len()
        invariant
            0 <= i <= windows.len(),
            targets_view(targets@) =~= offered(
                windows@.take(i as int),
                own_process,
                desktop,
            ),
        decreases windows.len() - i,
    {
        proof {
            assert(windows@.take(i + 1).drop_last() =~= windows@.take(i as int));
            assert(windows@.take(i + 1).last() == windows@[i as int]);
        }
        if let Some(found) = windows[i].target(own_process) {
            if let Some(clipped) = found.bounds.intersect(desktop) {
                let target: WindowTarget = WindowTarget { bounds: clipped, title: found.title };
                let ghost before = targets_view(targets@);
                targets.push(target);
                assert(targets_view(targets@) =~= before.push(target@));
            }
        }
        i += 1;
    }
    assert(windows@.take(i as int) =~= windows@);
    targets
}

/// The first of the windows that can be captured.
pub open spec fn topmost(windows: Seq<WindowFacts>, own_process: u32) -> Option<TargetView>
    decreases windows.len(),
{
    if windows.len() == 0 {
        None
    } else {
        match windows[0].spec_target(own_process) {
            Some(target) => Some(target),
            None => topmost(windows.skip(1), own_process),
        }
    }
}

/// The window that the user means by the active one: the foreground window, or
/// the topmost one where that is ours or cannot be captured.
pub fn active_window(
    foreground: Option<&WindowFacts>,
    windows: &Vec<WindowFacts>,
    own_process: u32,
) -> (r: Result<WindowTarget, CaptureError>)
    ensures
        ({
            let front = match foreground {
                Some(w) => w.spec_target(own_process),
                None => None,
            };
            let wanted = if front is Some {
                front
            } else {
                topmost(windows@, own_process)
            };
            match wanted {
                Some(target) => r matches Ok(found) && found@ == target,
                None => r matches Err(e) && e is NoForegroundWindow,
            }
        }),
{
    if let Some(w) = foreground {
        if let Some(found) = w.target(own_process) {
            return Ok(found);
        }
    }
    let mut i: usize = 0;
    assert(windows@.skip(0) =~= windows@);
    while i < windows.len()
        invariant
            0 <= i <= windows.len(),
            topmost(windows@, own_process) == topmost(windows@.skip(i as int), own_process),
            foreground matches Some(w) ==> w.spec_target(own_process) is None,
        decreases windows.len() - i,
    {
        assert(windows@.skip(i as int)[0] == windows@[i as int]);
        if let Some(found) = windows[i].target(own_process) {
            return Ok(found);
        }
        assert(windows@.skip(i as int).skip(1) =~= windows@.skip(i + 1));
        i += 1;
    }
    Err(CaptureError::NoForegroundWindow)
}

// ---------------------------------------------------------------------------
// Laws
// ---------------------------------------------------------------------------

/// Two rectangles intersect in exactly the pixels that lie in both, and do not
/// intersect where no pixel does.
pub proof fn intersection_is_the_common_part(a: Bounds, b: Bounds)
    ensures
        match a.spec_intersect(b) {
            Some(r) => {
                &&& r.width > 0
                &&& r.height > 0
                &&& forall|x: int, y: int| #[trigger] r.has(x, y) <==> a.has(x, y) && b.has(x, y)
            },
            None => forall|x: int, y: int| #![trigger a.has(x, y)] !(a.has(x, y) && b.has(x, y)),
        },
{
}

/// It does not matter which rectangle is clipped to which.
pub proof fn intersection_is_symmetric(a: Bounds, b: Bounds)
    ensures
        a.spec_intersect(b) == b.spec_intersect(a),
{
}

/// A rectangle with pixels that lies within another is left as it is.
pub proof fn intersection_keeps_what_is_inside(a: Bounds, b: Bounds)
    requires
        a.width > 0,
        a.height > 0,
        b.x <= a.x,
        b.y <= a.y,
        a.x_end() <= b.x_end(),
        a.y_end() <= b.y_end(),
    ensures
        a.spec_intersect(b) == Some(a),
{
}

/// Cutting a part out of a part gives what cutting it out of the whole gives.
pub proof fn cutting_twice_is_cutting_once(
    whole: Frame,
    first: Bounds,
    part: Frame,
    second: Bounds,
    last: Frame,
)
    requires
        whole.is_cut_to(first, part),
        part.is_cut_to(second, last),
    ensures
        first.spec_intersect(second) matches Some(both) && whole.is_cut_to(both, last),
{
    let both = first.spec_intersect(second);
    assert(both is Some);
    assert(both->0.spec_intersect(whole.spec_bounds()) == Some(last.spec_bounds()));
    assert forall|x: int, y: int, c: int|
        last.spec_bounds().has(x, y) && 0 <= c < 4 implies #[trigger] last.shown_at(x, y, c)
        == whole.shown_at(x, y, c) by {
        assert(part.spec_bounds().has(x, y));
        assert(last.shown_at(x, y, c) == part.shown_at(x, y, c));
    }
}

/// Cutting a frame with pixels to its own bounds gives the same frame.
pub proof fn cutting_to_the_whole_changes_nothing(whole: Frame, part: Frame)
    requires
        whole.image@.is_image(),
        whole.is_cut_to(whole.spec_bounds(), part),
    ensures
        part.image@ == whole.image@,
        part.origin == whole.origin,
{
    assert forall|x: int, y: int, c: int|
        0 <= x < part.image@.width && 0 <= y < part.image@.height && 0 <= c
            < 4 implies #[trigger] part.image@.at(x, y, c) == whole.image@.at(x, y, c) by {
        assert(part.shown_at(x + part.origin.0, y + part.origin.1, c) == whole.shown_at(
            x + part.origin.0,
            y + part.origin.1,
            c,
        ));
    }
    crate::capture::pixels::pixels_make_the_picture(part.image@, whole.image@);
}

/// A display that is listed as holding a point does hold it, and no display
/// before it does.
pub proof fn monitor_place_is_first(list: Seq<MonitorInfo>, x: int, y: int)
    ensures
        0 <= monitor_place(list, x, y) <= list.len(),
        monitor_place(list, x, y) < list.len() ==> list[monitor_place(list, x, y)].spec_bounds().has(
            x,
            y,
        ),
        forall|i: int|
            0 <= i < monitor_place(list, x, y) ==> !(#[trigger] list[i]).spec_bounds().has(x, y),
    decreases list.len(),
{
    if list.len() > 0 && !list[0].spec_bounds().has(x, y) {
        let rest = list.skip(1);
        monitor_place_is_first(rest, x, y);
        assert forall|i: int| 0 <= i < monitor_place(list, x, y) implies !(
        #[trigger] list[i]).spec_bounds().has(x, y) by {
            if i > 0 {
                assert(rest[i - 1] == list[i]);
            }
        }
    }
}

/// Every window that is offered lies on the desktop.
pub proof fn offered_windows_lie_on_the_desktop(
    windows: Seq<WindowFacts>,
    own_process: u32,
    desktop: Bounds,
    i: int,
)
    requires
        0 <= i < offered(windows, own_process, desktop).len(),
    ensures
        ({
            let b = offered(windows, own_process, desktop)[i].bounds;
            &&& b.width > 0
            &&& b.height > 0
            &&& desktop.x <= b.x
            &&& desktop.y <= b.y
            &&& b.x_end() <= desktop.x_end()
            &&& b.y_end() <= desktop.y_end()
        }),
    decreases windows.len(),
{
    if windows.len() > 0 {
        let rest = offered(windows.drop_last(), own_process, desktop);
        if i < rest.len() {
            offered_windows_lie_on_the_desktop(windows.drop_last(), own_process, desktop, i);
        }
    }
}

/// Which pixels a rectangle holds: those from its corner on, as many as it is wide
/// and as many as it is high.
pub proof fn a_rectangle_starts_at_its_corner(b: Bounds, x: int, y: int)
    ensures
        b.has(x, y) <==> b.x <= x < b.x + b.width && b.y <= y < b.y + b.height,
        b.x_end() == b.x + b.width,
        b.y_end() == b.y + b.height,
{
}

/// The rectangle between four edges reaches from the left one to the right one and
/// from the top one to the bottom one, and has no pixels where they cross.
pub proof fn a_rectangle_fills_its_edges(r: Rect, x: int, y: int)
    ensures
        bounds_of(r).has(x, y) <==> r.left <= x < r.right && r.top <= y < r.bottom,
        bounds_of(r).x == r.left,
        bounds_of(r).y == r.top,
        bounds_of(r).width == 0 <==> r.left >= r.right,
        bounds_of(r).height == 0 <==> r.top >= r.bottom,
{
}

/// The desktop, a display and a frame lie where their own numbers say.
pub proof fn everything_lies_where_it_says(
    desktop: VirtualDesktop,
    monitor: MonitorInfo,
    frame: Frame,
)
    ensures
        desktop.spec_as_rect().x == desktop.x,
        desktop.spec_as_rect().y == desktop.y,
        desktop.spec_as_rect().width == desktop.width,
        desktop.spec_as_rect().height == desktop.height,
        monitor.spec_bounds().x == monitor.x,
        monitor.spec_bounds().y == monitor.y,
        monitor.spec_bounds().width == monitor.width,
        monitor.spec_bounds().height == monitor.height,
        frame.spec_bounds().x == frame.origin.0,
        frame.spec_bounds().y == frame.origin.1,
        frame.spec_bounds().width == frame.image@.width,
        frame.spec_bounds().height == frame.image@.height,
{
}

/// A part that is cut from a frame holds just the pixels of the frame that lie in
/// the area, each with its own four bytes.
pub proof fn cutting_moves_no_pixel(
    whole: Frame,
    area: Bounds,
    part: Frame,
    x: int,
    y: int,
    c: int,
)
    requires
        whole.is_cut_to(area, part),
        0 <= c < 4,
    ensures
        (part.origin.0 <= x < part.origin.0 + part.image@.width && part.origin.1 <= y
            < part.origin.1 + part.image@.height) <==> (area.x <= x < area.x + area.width && area.y
            <= y < area.y + area.height && whole.origin.0 <= x < whole.origin.0
            + whole.image@.width && whole.origin.1 <= y < whole.origin.1 + whole.image@.height),
        part.image@.pixels.len() == 4 * (part.image@.width * part.image@.height),
        (part.origin.0 <= x < part.origin.0 + part.image@.width && part.origin.1 <= y
            < part.origin.1 + part.image@.height) ==> part.image@.pixels[4 * ((y - part.origin.1)
            * part.image@.width + (x - part.origin.0)) + c] == whole.image@.pixels[4 * ((y
            - whole.origin.1) * whole.image@.width + (x - whole.origin.0)) + c],
{
    intersection_is_the_common_part(area, whole.spec_bounds());
    assert(part.spec_bounds().has(x, y) <==> area.has(x, y) && whole.spec_bounds().has(x, y));
    if part.spec_bounds().has(x, y) {
        assert(part.shown_at(x, y, c) == whole.shown_at(x, y, c));
    }
}

/// A capture shows the part of the area that lies on the desktop, pixel for pixel
/// as it was read, from blue, green, red to red, green, blue, and opaque. Gives
/// what was read.
pub proof fn a_capture_shows_what_was_read<R: FnOnce(Bounds) -> Result<Vec<u8>, String>>(
    area: Bounds,
    desktop: Bounds,
    read: R,
    frame: Frame,
) -> (bytes: Vec<u8>)
    requires
        is_captured(area, desktop, read, frame),
    ensures
        read.ensures(
            (Bounds {
                x: frame.origin.0,
                y: frame.origin.1,
                width: frame.image@.width,
                height: frame.image@.height,
            },),
            Ok(bytes),
        ),
        forall|x: int, y: int|
            #![trigger desktop.has(x, y)]
            (frame.origin.0 <= x < frame.origin.0 + frame.image@.width && frame.origin.1 <= y
                < frame.origin.1 + frame.image@.height) <==> (area.x <= x < area.x + area.width
                && area.y <= y < area.y + area.height && desktop.has(x, y)),
        frame.image@.pixels.len() == 4 * (frame.image@.width * frame.image@.height),
        bytes@.len() >= 4 * (frame.image@.width * frame.image@.height),
        forall|k: int|
            0 <= k < frame.image@.pixels.len() ==> #[trigger] frame.image@.pixels[k] == if k % 4
                == 3 {
                255u8
            } else {
                bytes@[4 * (k / 4) + (2 - k % 4)]
            },
{
    let bytes = choose|bytes: Vec<u8>|
        {
            &&& #[trigger] is_screen_read(area, desktop, read, frame.spec_bounds(), bytes)
            &&& is_frame_of(frame.spec_bounds(), bytes@, frame)
        };
    intersection_is_the_common_part(area, desktop);
    assert forall|x: int, y: int| #![trigger desktop.has(x, y)]
        (frame.origin.0 <= x < frame.origin.0 + frame.image@.width && frame.origin.1 <= y
            < frame.origin.1 + frame.image@.height) <==> (area.x <= x < area.x + area.width
            && area.y <= y < area.y + area.height && desktop.has(x, y)) by {
        assert(frame.spec_bounds().has(x, y) <==> area.has(x, y) && desktop.has(x, y));
    }
    bytes
}

/// Pixels that are captured as they were read are those bytes, with every fourth
/// one set to opaque. Gives what was read.
pub proof fn a_raw_capture_is_what_was_read<R: FnOnce(Bounds) -> Result<Vec<u8>, String>>(
    area: Bounds,
    desktop: Bounds,
    read: R,
    pixels: Seq<u8>,
    clipped: Bounds,
) -> (bytes: Vec<u8>)
    requires
        is_captured_bgra(area, desktop, read, pixels, clipped),
    ensures
        read.ensures((clipped,), Ok(bytes)),
        forall|x: int, y: int| #[trigger]
            clipped.has(x, y) <==> area.has(x, y) && desktop.has(x, y),
        clipped.width > 0,
        clipped.height > 0,
        pixels.len() == 4 * (clipped.width * clipped.height),
        bytes@.len() >= pixels.len(),
        forall|k: int|
            0 <= k < pixels.len() ==> #[trigger] pixels[k] == if k % 4 == 3 {
                255u8
            } else {
                bytes@[k]
            },
{
    let bytes = choose|bytes: Vec<u8>|
        {
            &&& #[trigger] is_screen_read(area, desktop, read, clipped, bytes)
            &&& bytes.len() >= pixel_bytes(clipped)
            &&& pixels == crate::capture::pixels::opaque(bytes@.take(pixel_bytes(clipped)))
        };
    intersection_is_the_common_part(area, desktop);
    assert(0 <= clipped.width * clipped.height) by (nonlinear_arith);
    bytes
}

/// A capture fails for one of three reasons, and says which: no pixel of the area
/// lies on the desktop, reading failed, in the words of that failure, or too few
/// bytes were read for the pixels.
pub proof fn a_capture_fails_for_a_reason<R: FnOnce(Bounds) -> Result<Vec<u8>, String>>(
    area: Bounds,
    desktop: Bounds,
    read: R,
    e: CaptureError,
)
    requires
        is_failed_read(area, desktop, read, e) || is_short_read(area, desktop, read, e),
    ensures
        e !is NoForegroundWindow,
        e is EmptyArea ==> forall|x: int, y: int|
            #![trigger area.has(x, y)]
            !(area.has(x, y) && desktop.has(x, y)),
        e is Gdi ==> exists|clipped: Bounds|
            {
                &&& forall|x: int, y: int| #[trigger]
                    clipped.has(x, y) <==> area.has(x, y) && desktop.has(x, y)
                &&& (#[trigger] read.ensures((clipped,), Err(e->Gdi_0))) || (e->Gdi_0@
                    == "pixel buffer did not match image size"@ && exists|bytes: Vec<u8>|
                    #[trigger] read.ensures((clipped,), Ok(bytes)) && bytes.len() < 4 * (
                    clipped.width * clipped.height))
            },
{
    intersection_is_the_common_part(area, desktop);
    if e is Gdi {
        let clipped = area.spec_intersect(desktop)->0;
        assert(forall|x: int, y: int| #[trigger]
            clipped.has(x, y) <==> area.has(x, y) && desktop.has(x, y));
        if !read.ensures((clipped,), Err(e->Gdi_0)) {
            let (c, bytes) = choose|c: Bounds, bytes: Vec<u8>|
                {
                    &&& #[trigger] is_screen_read(area, desktop, read, c, bytes)
                    &&& bytes.len() < 4 * crate::capture::pixels::area(c.width, c.height)
                };
            assert(c == clipped);
            assert(read.ensures((clipped,), Ok(bytes)));
        }
    }
}

/// UTF-16 is read unit by unit: a unit that is no half of a pair is its own
/// character, a high half before a low half makes one character of both, and any
/// other half is replaced.
pub proof fn utf16_is_read_unit_by_unit(first: u16, second: u16, rest: Seq<u16>)
    ensures
        utf16_text(Seq::empty()) == Seq::<char>::empty(),
        first < 0xd800 || first > 0xdfff ==> utf16_text(seq![first] + rest) == seq![first as char]
            + utf16_text(rest),
        0xd800 <= first < 0xdc00 && 0xdc00 <= second <= 0xdfff ==> utf16_text(
            seq![first, second] + rest,
        ) == seq![((first - 0xd800) * 1024 + (second - 0xdc00) + 65536) as char] + utf16_text(
            rest,
        ),
        0xd800 <= first < 0xdc00 && !(0xdc00 <= second <= 0xdfff) ==> utf16_text(
            seq![first, second] + rest,
        ) == seq!['\u{fffd}'] + utf16_text(seq![second] + rest),
        0xd800 <= first < 0xdc00 ==> utf16_text(seq![first]) == seq!['\u{fffd}'],
        0xdc00 <= first <= 0xdfff ==> utf16_text(seq![first] + rest) == seq!['\u{fffd}']
            + utf16_text(rest),
{
    let one = seq![first] + rest;
    let two = seq![first, second] + rest;
    assert(one.skip(1) =~= rest);
    assert(two.skip(1) =~= seq![second] + rest);
    assert(two.skip(2) =~= rest);
    assert(one[0] == first && two[0] == first && two[1] == second);
    assert(seq![first].skip(1) =~= Seq::<u16>::empty());
    assert(utf16_text(Seq::<u16>::empty()) =~= Seq::<char>::empty());
    assert(seq!['\u{fffd}'] + Seq::<char>::empty() =~= seq!['\u{fffd}']);
}

/// What the user reads of a display, and what is kept of it.
pub proof fn a_display_is_told_by_its_facts(f: MonitorFacts, n: nat)
    ensures
        described_monitor(f, n).is_primary <==> f.flags % 2 != 0,
        described_monitor(f, n).bounds == bounds_of(f.rect),
        f.dpi is Some ==> described_monitor(f, n).dpi == f.dpi->0,
        f.dpi is None ==> described_monitor(f, n).dpi == 96,
        described_monitor(f, n).id == crate::text::trimmed_end(utf16_text(f.device@), Strip::Nul),
        f.flags % 2 != 0 ==> described_monitor(f, n).label == "Display "@ + crate::text::decimal(n)
            + " - "@ + crate::text::decimal(bounds_of(f.rect).width as nat) + " x "@
            + crate::text::decimal(bounds_of(f.rect).height as nat) + " (Primary)"@,
        f.flags % 2 == 0 ==> described_monitor(f, n).label == "Display "@ + crate::text::decimal(n)
            + " - "@ + crate::text::decimal(bounds_of(f.rect).width as nat) + " x "@
            + crate::text::decimal(bounds_of(f.rect).height as nat),
{
    reveal_strlit("");
    let head = "Display "@ + crate::text::decimal(n) + " - "@ + crate::text::decimal(
        bounds_of(f.rect).width as nat,
    ) + " x "@ + crate::text::decimal(bounds_of(f.rect).height as nat);
    assert(head + ""@ =~= head);
}

/// The list of displays holds every display once, numbered from one: the primary
/// ones first, then from left to right, then from top to bottom, and otherwise as
/// they came. Gives where each of them came from.
pub proof fn displays_are_listed_in_order(facts: Seq<MonitorFacts>, list: Seq<MonitorInfo>) -> (p:
    Seq<usize>)
    requires
        is_monitor_list(facts, list),
    ensures
        p.len() == facts.len(),
        list.len() == facts.len(),
        p.no_duplicates(),
        forall|i: int| 0 <= i < p.len() ==> (#[trigger] p[i]) < facts.len(),
        forall|i: int|
            0 <= i < list.len() ==> (#[trigger] list[i])@ == described_monitor(
                facts[p[i] as int],
                (i + 1) as nat,
            ),
        forall|i: int, j: int|
            #![trigger p[i], p[j]]
            0 <= i < j < p.len() ==> {
                let a = facts[p[i] as int];
                let b = facts[p[j] as int];
                &&& b.flags % 2 != 0 ==> a.flags % 2 != 0
                &&& a.flags % 2 == b.flags % 2 ==> a.rect.left <= b.rect.left
                &&& a.flags % 2 == b.flags % 2 && a.rect.left == b.rect.left ==> a.rect.top
                    <= b.rect.top
                &&& a.flags % 2 == b.flags % 2 && a.rect.left == b.rect.left && a.rect.top
                    == b.rect.top ==> p[i] < p[j]
            },
{
    let p = choose|p: Seq<usize>|
        {
            &&& #[trigger] crate::order::is_stable_order(monitor_keys(facts), p)
            &&& list.len() == facts.len()
            &&& forall|i: int|
                0 <= i < list.len() ==> (#[trigger] list[i])@ == described_monitor(
                    facts[p[i] as int],
                    (i + 1) as nat,
                )
        };
    let keys = monitor_keys(facts);
    crate::order::lemma_all_places(keys, p);
    assert forall|i: int, j: int|
        #![trigger p[i], p[j]]
        0 <= i < j < p.len() implies {
        let a = facts[p[i] as int];
        let b = facts[p[j] as int];
        &&& b.flags % 2 != 0 ==> a.flags % 2 != 0
        &&& a.flags % 2 == b.flags % 2 ==> a.rect.left <= b.rect.left
        &&& a.flags % 2 == b.flags % 2 && a.rect.left == b.rect.left ==> a.rect.top <= b.rect.top
        &&& a.flags % 2 == b.flags % 2 && a.rect.left == b.rect.left && a.rect.top == b.rect.top
            ==> p[i] < p[j]
    } by {
        assert(crate::order::place_before(keys, p[i] as int, p[j] as int));
        assert(keys[p[i] as int] == facts[p[i] as int].spec_key());
        assert(keys[p[j] as int] == facts[p[j] as int].spec_key());
    }
    p
}

/// A display that is found by its identifier has it, and no display before it
/// does.
pub proof fn the_first_display_of_an_id_is_found(list: Seq<MonitorInfo>, id: Seq<char>)
    ensures
        0 <= monitor_id_place(list, id) <= list.len(),
        monitor_id_place(list, id) < list.len() ==> list[monitor_id_place(list, id)].id@ == id,
        forall|i: int| 0 <= i < monitor_id_place(list, id) ==> (#[trigger] list[i]).id@ != id,
    decreases list.len(),
{
    if list.len() > 0 && list[0].id@ != id {
        let rest = list.skip(1);
        the_first_display_of_an_id_is_found(rest, id);
        assert forall|i: int| 0 <= i < monitor_id_place(list, id) implies (
        #[trigger] list[i]).id@ != id by {
            if i > 0 {
                assert(rest[i - 1] == list[i]);
            }
        }
    }
}

/// A window can be captured where the user can see it, it is no palette, and it
/// belongs to another process. What is captured of it is the frame that the user
/// sees, or else the frame with its border, where that has any pixels.
pub proof fn visible_windows_can_be_captured(w: WindowFacts, own_process: u32)
    ensures
        !w.visible ==> w.spec_target(own_process) is None,
        w.minimised ==> w.spec_target(own_process) is None,
        w.process == own_process ==> w.spec_target(own_process) is None,
        w.ex_style & 0x80 != 0 ==> w.spec_target(own_process) is None,
        w.cloaked is Some && w.cloaked->0 != 0 ==> w.spec_target(own_process) is None,
        w.frame is None && w.rect is None ==> w.spec_target(own_process) is None,
        w.spec_capturable(own_process) <==> (w.visible && !w.minimised && w.process != own_process
            && w.ex_style & 0x80 == 0 && (w.cloaked is None || w.cloaked->0 == 0)),
        w.spec_capturable(own_process) && w.frame is Some ==> {
            let b = bounds_of(w.frame->0);
            w.spec_target(own_process) == if b.width == 0 || b.height == 0 {
                None
            } else {
                Some(TargetView { bounds: b, title: utf16_text(w.title@) })
            }
        },
        w.spec_capturable(own_process) && w.frame is None && w.rect is Some ==> {
            let b = bounds_of(w.rect->0);
            w.spec_target(own_process) == if b.width == 0 || b.height == 0 {
                None
            } else {
                Some(TargetView { bounds: b, title: utf16_text(w.title@) })
            }
        },
        w.spec_described() is Some <==> {
            let r = if w.frame is Some {
                w.frame
            } else {
                w.rect
            };
            r is Some && r->0.left < r->0.right && r->0.top < r->0.bottom
        },
        w.spec_bounds() is None <==> w.frame is None && w.rect is None,
        w.frame is Some ==> w.spec_bounds() == Some(bounds_of(w.frame->0)),
        w.frame is None && w.rect is Some ==> w.spec_bounds() == Some(bounds_of(w.rect->0)),
{
}

/// The windows that are offered are those that can be captured and reach onto the
/// desktop, in the order they are given in, each with its title and cut to the
/// desktop.
pub proof fn windows_are_offered_in_turn(
    windows: Seq<WindowFacts>,
    w: WindowFacts,
    own_process: u32,
    desktop: Bounds,
)
    ensures
        offered(Seq::empty(), own_process, desktop) == Seq::<TargetView>::empty(),
        w.spec_target(own_process) is None ==> offered(windows.push(w), own_process, desktop)
            == offered(windows, own_process, desktop),
        w.spec_target(own_process) is Some && w.spec_target(own_process)->0.bounds.spec_intersect(
            desktop,
        ) is None ==> offered(windows.push(w), own_process, desktop) == offered(
            windows,
            own_process,
            desktop,
        ),
        w.spec_target(own_process) is Some && w.spec_target(own_process)->0.bounds.spec_intersect(
            desktop,
        ) is Some ==> offered(windows.push(w), own_process, desktop) == offered(
            windows,
            own_process,
            desktop,
        ).push(
            TargetView {
                bounds: w.spec_target(own_process)->0.bounds.spec_intersect(desktop)->0,
                title: w.spec_target(own_process)->0.title,
            },
        ),
{
    assert(windows.push(w).drop_last() =~= windows);
}

/// The topmost window is the first that can be captured.
pub proof fn the_topmost_window_is_the_first(windows: Seq<WindowFacts>, own_process: u32, k: int)
    ensures
        topmost(windows, own_process) is None <==> forall|i: int|
            0 <= i < windows.len() ==> (#[trigger] windows[i]).spec_target(own_process) is None,
        0 <= k < windows.len() && windows[k].spec_target(own_process) is Some && (forall|i: int|
            0 <= i < k ==> (#[trigger] windows[i]).spec_target(own_process) is None) ==> topmost(
            windows,
            own_process,
        ) == windows[k].spec_target(own_process),
    decreases windows.len(),
{
    if windows.len() > 0 {
        let rest = windows.skip(1);
        the_topmost_window_is_the_first(rest, own_process, k - 1);
        assert forall|i: int| 0 <= i < rest.len() implies #[trigger] rest[i] == windows[i + 1] by {}
        assert forall|i: int| 1 <= i < windows.len() implies #[trigger] windows[i] == rest[i - 1]
            by {}
    }
}

/// What is shown of displays, of windows and of errors is what they hold.
pub proof fn displays_and_windows_are_shown_as_they_are(
    monitors: Seq<MonitorInfo>,
    windows: Seq<WindowTarget>,
    i: int,
    e: CaptureError,
)
    ensures
        monitors_view(monitors).len() == monitors.len(),
        0 <= i < monitors.len() ==> {
            let shown = monitors_view(monitors)[i];
            &&& shown.id == monitors[i].id@
            &&& shown.label == monitors[i].label@
            &&& shown.bounds.x == monitors[i].x
            &&& shown.bounds.y == monitors[i].y
            &&& shown.bounds.width == monitors[i].width
            &&& shown.bounds.height == monitors[i].height
            &&& shown.dpi == monitors[i].dpi
            &&& shown.is_primary == monitors[i].is_primary
        },
        targets_view(windows).len() == windows.len(),
        0 <= i < windows.len() ==> targets_view(windows)[i].bounds == windows[i].bounds
            && targets_view(windows)[i].title == windows[i].title@,
        e is EmptyArea ==> e.spec_message() == "the requested capture area is empty"@,
        e is NoForegroundWindow ==> e.spec_message() == "no foreground window could be identified"@,
        e is Gdi ==> e.spec_message() == "Windows GDI call failed: "@ + e->Gdi_0@,
{
}

/// A size counts as a signed number from half its range on, and the pixels of an area
/// take up four bytes each.
pub proof fn sizes_are_counted_in_bits_and_bytes(size: u32, area: Bounds)
    ensures
        size < 0x8000_0000 ==> signed(size) == size,
        size >= 0x8000_0000 ==> signed(size) == size - 0x1_0000_0000,
        pixel_bytes(area) == 4 * (area.width * area.height),
{
}

} // verus!
