//! The presenter's side of the framebuffer: a back buffer that the scenes
//! paint into, the frame that was shown last, and the blit that turns RGBA
//! into the device's BGRA, skipped when nothing changed.
//!
//! The mapped region itself belongs to the program around the library; it is
//! handed to `present` as a byte slice.

use vstd::prelude::*;
use vstd::arithmetic::div_mod::lemma_fundamental_div_mod_converse;
use crate::theme::Color;
use crate::bytes::{le32, read_le32, same_bytes};

verus! {

/// Geometry of the screen as the device reports it.
#[derive(Clone, Copy, Debug, PartialEq, Eq, Structural)]
pub struct ScreenInfo {
    pub width: u32,
    pub height: u32,
    /// Bytes per row; at least `width` pixels' worth, often more.
    pub stride: u32,
    /// Bits per pixel.
    pub bpp: u32,
}

/// Why the device cannot be used.
#[derive(Clone, Copy, Debug, PartialEq, Eq, Structural)]
pub enum DeviceError {
    /// The device node could not be opened.
    Open,
    /// A geometry query failed.
    Query,
    /// The device reports a screen of zero bytes.
    EmptyScreen,
    /// The screen does not fit into the address space.
    TooLarge,
    /// The region could not be mapped.
    Mapping,
}

impl DeviceError {
    /// What went wrong, in words.
    pub open spec fn message_spec(self) -> Seq<char> {
        match self {
            DeviceError::Open => "cannot open device"@,
            DeviceError::Query => "geometry query failed"@,
            DeviceError::EmptyScreen => "zero fb size"@,
            DeviceError::TooLarge => "fb size exceeds the address space"@,
            DeviceError::Mapping => "cannot map device"@,
        }
    }

    /// What went wrong, in words.
    pub fn message(&self) -> (text: &'static str)
        ensures
            text@ == self.message_spec(),
    {
        match self {
            DeviceError::Open => "cannot open device",
            DeviceError::Query => "geometry query failed",
            DeviceError::EmptyScreen => "zero fb size",
            DeviceError::TooLarge => "fb size exceeds the address space",
            DeviceError::Mapping => "cannot map device",
        }
    }
}

/// The request for the variable screen information.
pub const VAR_INFO_REQUEST: u32 = 0x4600;

/// The request for the fixed screen information.
pub const FIX_INFO_REQUEST: u32 = 0x4602;

/// Size of the kernel's record of variable screen information, in bytes.
pub const VAR_INFO_LEN: usize = 160;

/// Size of the kernel's record of fixed screen information, in bytes, as
/// laid out on 64-bit Linux.
pub const FIX_INFO_LEN: usize = 80;

/// Offset of the visible width in the variable record.
pub const VAR_XRES: usize = 0;

/// Offset of the visible height in the variable record.
pub const VAR_YRES: usize = 4;

/// Offset of the bits per pixel in the variable record.
pub const VAR_BITS_PER_PIXEL: usize = 24;

/// Offset of the line length in the fixed record.
pub const FIX_LINE_LENGTH: usize = 48;

impl ScreenInfo {
    /// The geometry that the two records hold: width, height and bits per
    /// pixel from the variable one, the stride from the fixed one.
    pub open spec fn from_kernel_spec(var_info: Seq<u8>, fix_info: Seq<u8>) -> ScreenInfo {
        ScreenInfo {
            width: le32(var_info, 0) as u32,
            height: le32(var_info, 4) as u32,
            stride: le32(fix_info, 48) as u32,
            bpp: le32(var_info, 24) as u32,
        }
    }

    /// Reads the geometry out of the kernel's two records, as the two
    /// geometry queries have filled them. A record that is too short to be
    /// one is a failed query.
    pub fn from_kernel(var_info: &[u8], fix_info: &[u8]) -> (info: Result<ScreenInfo, DeviceError>)
        ensures
            info is Ok <==> var_info@.len() >= VAR_INFO_LEN && fix_info@.len() >= FIX_INFO_LEN,
            info matches Ok(i) ==> i == ScreenInfo::from_kernel_spec(var_info@, fix_info@),
            info matches Err(e) ==> e == DeviceError::Query,
    {
        if var_info.len() < VAR_INFO_LEN || fix_info.len() < FIX_INFO_LEN {
            return Err(DeviceError::Query);
        }
        Ok(
            ScreenInfo {
                width: read_le32(var_info, VAR_XRES),
                height: read_le32(var_info, VAR_YRES),
                stride: read_le32(fix_info, FIX_LINE_LENGTH),
                bpp: read_le32(var_info, VAR_BITS_PER_PIXEL),
            },
        )
    }

    /// Bytes of one frame: `stride * height`.
    pub open spec fn byte_len(self) -> int {
        self.stride * self.height
    }

    /// Bytes that one pixel takes.
    pub open spec fn pixel_bytes(self) -> int {
        self.bpp as int / 8
    }

    /// Where byte `k` of the pixel at column `x` and row `y` lies.
    pub open spec fn offset_of(self, x: int, y: int, k: int) -> int {
        y * self.stride + x * self.pixel_bytes() + k
    }

    /// A pixel has room for red, green and blue, and a row has room for
    /// `width` pixels.
    pub open spec fn holds_rgb(self) -> bool {
        self.pixel_bytes() >= 3 && self.width * self.pixel_bytes() <= self.stride
    }

    /// Length of the region to map.
    pub fn mapped_len(&self) -> (len: Result<usize, DeviceError>)
        ensures
            len == Err::<usize, DeviceError>(DeviceError::EmptyScreen) <==> self.byte_len() == 0,
            len == Err::<usize, DeviceError>(DeviceError::TooLarge) <==> self.byte_len()
                > usize::MAX,
            len matches Ok(n) ==> n == self.byte_len() && n > 0,
            len is Ok || len == Err::<usize, DeviceError>(DeviceError::EmptyScreen) || len
                == Err::<usize, DeviceError>(DeviceError::TooLarge),
    {
        assert(self.stride * self.height <= 0xFFFF_FFFF * 0xFFFF_FFFF) by (nonlinear_arith)
            requires
                self.stride <= 0xFFFF_FFFF,
                self.height <= 0xFFFF_FFFF,
        ;
        let bytes: u64 = (self.stride as u64) * (self.height as u64);
        if bytes == 0 {
            Err(DeviceError::EmptyScreen)
        } else if bytes > usize::MAX as u64 {
            Err(DeviceError::TooLarge)
        } else {
            Ok(bytes as usize)
        }
    }
}

/// The offset that byte `i` of a BGRA pixel stream takes its value from in
/// the RGBA stream: red and blue trade places, green and alpha stay.
pub open spec fn swizzle(i: int) -> int {
    if i % 4 == 0 {
        i + 2
    } else if i % 4 == 2 {
        i - 2
    } else {
        i
    }
}

/// Bytes that lie in pixels which both buffers hold completely.
pub open spec fn blit_len(src: Seq<u8>, dst: Seq<u8>) -> int {
    let shorter = if src.len() <= dst.len() {
        src.len() as int
    } else {
        dst.len() as int
    };
    shorter - shorter % 4
}

/// The mapped region after a blit of `src` over `dst`: every complete
/// pixel reordered from RGBA to BGRA, whatever lies behind untouched.
pub open spec fn blit_spec(src: Seq<u8>, dst: Seq<u8>) -> Seq<u8> {
    Seq::new(
        dst.len(),
        |i: int|
            if i < blit_len(src, dst) {
                src[swizzle(i)]
            } else {
                dst[i]
            },
    )
}

/// Channel `k` of a colour, in the order red, green, blue, alpha.
pub open spec fn channel(color: Color, k: int) -> u8 {
    if k == 0 {
        color.r
    } else if k == 1 {
        color.g
    } else if k == 2 {
        color.b
    } else {
        color.a
    }
}

/// Byte `i` of a frame filled with `color`: a byte among the first four of
/// a pixel on screen is that channel of the colour; the bytes behind them,
/// and the padding at the end of each row, stay what they were.
pub open spec fn cleared_byte(info: ScreenInfo, color: Color, before: Seq<u8>, i: int) -> u8 {
    let in_row = i % (info.stride as int);
    let k = in_row % info.pixel_bytes();
    if in_row / info.pixel_bytes() < info.width && k < 4 {
        channel(color, k)
    } else {
        before[i]
    }
}

/// A frame filled with `color`.
pub open spec fn cleared(info: ScreenInfo, color: Color, before: Seq<u8>) -> Seq<u8> {
    Seq::new(before.len(), |i: int| cleared_byte(info, color, before, i))
}

/// Byte `k` of the pixel at column `x` and row `y` lies at
/// `y * stride + x * pixel_bytes + k`, inside row `y`.
pub proof fn lemma_pixel_offset(info: ScreenInfo, x: int, y: int, k: int)
    requires
        info.holds_rgb(),
        0 <= x < info.width,
        0 <= y,
        0 <= k < info.pixel_bytes(),
    ensures
        ({
            let pb = info.pixel_bytes();
            let i = y * info.stride + x * pb + k;
            &&& 0 <= x * pb + k < info.stride
            &&& y * info.stride <= i < (y + 1) * info.stride
            &&& i % (info.stride as int) == x * pb + k
            &&& (x * pb + k) / pb == x
            &&& (x * pb + k) % pb == k
        }),
{
    let pb = info.pixel_bytes();
    let stride = info.stride as int;
    let width = info.width as int;
    assert(0 <= x * pb && x * pb + pb <= width * pb) by (nonlinear_arith)
        requires
            0 <= x < width,
            pb >= 3,
    ;
    assert((y + 1) * stride == y * stride + stride && 0 <= y * stride) by (nonlinear_arith)
        requires
            0 <= y,
            0 <= stride,
    ;
    lemma_fundamental_div_mod_converse(y * stride + x * pb + k, stride, y, x * pb + k);
    lemma_fundamental_div_mod_converse(x * pb + k, pb, x, k);
}

/// A byte at `rest` in row `y`, behind the last pixel of the row, is
/// padding.
pub proof fn lemma_row_padding(info: ScreenInfo, y: int, rest: int)
    requires
        info.holds_rgb(),
        0 <= y,
        info.width * info.pixel_bytes() <= rest < info.stride,
    ensures
        (y * info.stride + rest) % (info.stride as int) == rest,
        rest / info.pixel_bytes() >= info.width,
{
    let pb = info.pixel_bytes();
    let stride = info.stride as int;
    let width = info.width as int;
    assert(0 <= width * pb) by (nonlinear_arith)
        requires
            0 <= width,
            pb >= 3,
    ;
    lemma_fundamental_div_mod_converse(y * stride + rest, stride, y, rest);
    assert(rest / pb >= width) by (nonlinear_arith)
        requires
            width * pb <= rest,
            pb >= 3,
            0 <= width,
    ;
}

/// After a blit every pixel that both buffers hold has red and blue
/// exchanged and green and alpha in place, and every byte behind the last
/// such pixel is untouched.
pub proof fn lemma_blit_swaps_red_and_blue(src: Seq<u8>, dst: Seq<u8>, p: int, i: int)
    requires
        0 <= p,
        4 * p + 4 <= blit_len(src, dst),
        blit_len(src, dst) <= i < dst.len(),
    ensures
        blit_spec(src, dst).len() == dst.len(),
        blit_spec(src, dst)[4 * p] == src[4 * p + 2],
        blit_spec(src, dst)[4 * p + 1] == src[4 * p + 1],
        blit_spec(src, dst)[4 * p + 2] == src[4 * p],
        blit_spec(src, dst)[4 * p + 3] == src[4 * p + 3],
        blit_spec(src, dst)[i] == dst[i],
{
}

/// Writes `src` into `dst` pixel by pixel, RGBA to BGRA.
pub fn blit_bgra(src: &[u8], dst: &mut [u8])
    ensures
        final(dst)@ == blit_spec(src@, old(dst)@),
{
    let ghost before = dst@;
    let shorter: usize = if src.len() <= dst.len() {
        src.len()
    } else {
        dst.len()
    };
    let n: usize = shorter - shorter % 4;
    let mut at: usize = 0;
    while at < n
        invariant
            n == blit_len(src@, before),
            at <= n,
            at % 4 == 0,
            dst@.len() == before.len(),
            forall|k: int| 0 <= k < at ==> dst@[k] == src@[swizzle(k)],
            forall|k: int| at <= k < before.len() ==> dst@[k] == before[k],
        decreases n - at,
    {
        dst[at] = src[at + 2];
        dst[at + 1] = src[at + 1];
        dst[at + 2] = src[at];
        dst[at + 3] = src[at + 3];
        at = at + 4;
    }
    assert(dst@ =~= blit_spec(src@, before));
}

/// The lifetime of one mapping: mapped until released, and released once
/// at most.
#[derive(Clone, Copy, Debug, PartialEq, Eq, Structural)]
pub struct Mapping {
    /// Length of the mapped region; zero where nothing was mapped.
    pub len: usize,
    /// Whether the region has been given back.
    pub released: bool,
}

impl Mapping {
    /// The region may still be read and written.
    pub open spec fn live(self) -> bool {
        !self.released && self.len > 0
    }

    /// A mapping of `len` bytes that has not been released.
    pub fn new(len: usize) -> (m: Mapping)
        ensures
            m == (Mapping { len, released: false }),
    {
        Mapping { len, released: false }
    }

    /// Whether the region may still be touched.
    pub fn is_live(&self) -> (live: bool)
        ensures
            live == self.live(),
    {
        !self.released && self.len > 0
    }

    /// Ends the mapping. Returns the length to unmap, or nothing where
    /// there is nothing to unmap: the region was released before, or its
    /// length is zero. After the call the mapping is not live, so a second
    /// call returns nothing.
    pub fn release(&mut self) -> (unmap: Option<usize>)
        ensures
            unmap == (if old(self).live() {
                Some(old(self).len)
            } else {
                None
            }),
            final(self).released,
            final(self).len == old(self).len,
            !final(self).live(),
    {
        let was_live = self.is_live();
        self.released = true;
        if was_live {
            Some(self.len)
        } else {
            None
        }
    }
}

/// The back buffer, the frame presented last and the dirty flag.
pub struct Framebuffer {
    pub info: ScreenInfo,
    back_buffer: Vec<u8>,
    prev_buffer: Vec<u8>,
    dirty: bool,
}

impl Framebuffer {
    /// The pixels that the scenes have painted.
    pub closed spec fn back_buffer(&self) -> Seq<u8> {
        self.back_buffer@
    }

    /// The frame that reached the screen last.
    pub closed spec fn previous_frame(&self) -> Seq<u8> {
        self.prev_buffer@
    }

    /// The geometry of the screen.
    pub closed spec fn screen(&self) -> ScreenInfo {
        self.info
    }

    /// The flag that forces the next blit.
    pub closed spec fn dirty_flag(&self) -> bool {
        self.dirty
    }

    /// Both buffers have the size of one frame.
    pub open spec fn wf(&self) -> bool {
        &&& self.back_buffer().len() == self.screen().byte_len()
        &&& self.previous_frame().len() == self.screen().byte_len()
    }

    /// A blit is due: the flag is raised or the back buffer differs from the
    /// frame presented last.
    pub open spec fn needs_present(&self) -> bool {
        self.dirty_flag() || self.back_buffer() != self.previous_frame()
    }

    /// The presenter for a screen: a back buffer of zeros, and a first frame
    /// that is certain to be shown.
    pub fn new(info: ScreenInfo) -> (fb: Result<Framebuffer, DeviceError>)
        ensures
            fb is Err <==> (info.byte_len() == 0 || info.byte_len() > usize::MAX),
            fb matches Err(e) ==> (e == DeviceError::EmptyScreen <==> info.byte_len() == 0) && (e
                == DeviceError::TooLarge <==> info.byte_len() > usize::MAX),
            fb matches Ok(f) ==> {
                &&& f.wf()
                &&& f.screen() == info
                &&& f.dirty_flag()
                &&& f.needs_present()
                &&& forall|i: int| 0 <= i < f.back_buffer().len() ==> f.back_buffer()[i] == 0
                &&& forall|i: int|
                    0 <= i < f.previous_frame().len() ==> f.previous_frame()[i] == 0xFF
            },
    {
        let len: usize = match info.mapped_len() {
            Ok(n) => n,
            Err(e) => {
                return Err(e);
            },
        };
        let back_buffer: Vec<u8> = vec![0u8; len];
        let prev_buffer: Vec<u8> = vec![0xFFu8; len];
        Ok(Framebuffer { info, back_buffer, prev_buffer, dirty: true })
    }

    /// The back buffer, to paint into. Nothing reaches the screen before
    /// `present`.
    pub fn back_buffer_mut(&mut self) -> (buf: &mut [u8])
        ensures
            buf@ == old(self).back_buffer(),
            final(self).back_buffer() == final(buf)@,
            final(self).previous_frame() == old(self).previous_frame(),
            final(self).dirty_flag() == old(self).dirty_flag(),
            final(self).screen() == old(self).screen(),
    {
        self.back_buffer.as_mut_slice()
    }

    /// Width in pixels.
    pub fn width(&self) -> (w: u32)
        ensures
            w == self.screen().width,
    {
        self.info.width
    }

    /// Height in pixels.
    pub fn height(&self) -> (h: u32)
        ensures
            h == self.screen().height,
    {
        self.info.height
    }

    /// Forces the next `present` to blit.
    pub fn mark_dirty(&mut self)
        ensures
            final(self).dirty_flag(),
            final(self).needs_present(),
            final(self).back_buffer() == old(self).back_buffer(),
            final(self).previous_frame() == old(self).previous_frame(),
            final(self).screen() == old(self).screen(),
    {
        self.dirty = true;
    }

    /// Whether the next `present` will blit.
    pub fn is_dirty(&self) -> (dirty: bool)
        ensures
            dirty == self.needs_present(),
    {
        self.dirty || !same_bytes(self.back_buffer.as_slice(), self.prev_buffer.as_slice())
    }

    /// Brings the back buffer to the screen.
    ///
    /// `mapped` is the mapped region of the device, one frame long. Where no
    /// byte differs from the frame presented last and the dirty flag is
    /// down, nothing is written and nothing changes. Otherwise every pixel
    /// of the frame goes to the mapped region with red and blue exchanged
    /// and green and alpha in place, the back buffer becomes the frame
    /// presented last, and the flag is lowered. Returns whether it wrote.
    pub fn present(&mut self, mapped: &mut [u8]) -> (wrote: bool)
        requires
            old(self).wf(),
            old(mapped)@.len() == old(self).screen().byte_len(),
        ensures
            wrote == old(self).needs_present(),
            !wrote ==> final(mapped)@ == old(mapped)@,
            wrote ==> final(mapped)@ == blit_spec(old(self).back_buffer(), old(mapped)@),
            wrote ==> forall|o: int|
                0 <= o && o % 4 == 0 && o + 4 <= old(self).screen().byte_len() ==> {
                    &&& #[trigger] final(mapped)@[o] == old(self).back_buffer()[o + 2]
                    &&& final(mapped)@[o + 1] == old(self).back_buffer()[o + 1]
                    &&& final(mapped)@[o + 2] == old(self).back_buffer()[o]
                    &&& final(mapped)@[o + 3] == old(self).back_buffer()[o + 3]
                },
            final(mapped)@.len() == old(mapped)@.len(),
            final(self).back_buffer() == old(self).back_buffer(),
            final(self).previous_frame() == (if wrote {
                old(self).back_buffer()
            } else {
                old(self).previous_frame()
            }),
            final(self).dirty_flag() == (!wrote && old(self).dirty_flag()),
            !final(self).needs_present(),
            final(self).screen() == old(self).screen(),
            final(self).wf(),
    {
        if !self.is_dirty() {
            return false;
        }
        blit_bgra(self.back_buffer.as_slice(), mapped);
        let n: usize = self.back_buffer.len();
        let mut i: usize = 0;
        while i < n
            invariant
                n == self.back_buffer@.len(),
                n == self.prev_buffer@.len(),
                i <= n,
                self.back_buffer@ == old(self).back_buffer@,
                self.info == old(self).info,
                forall|k: int| 0 <= k < i ==> self.prev_buffer@[k] == self.back_buffer@[k],
            decreases n - i,
        {
            let b: u8 = self.back_buffer[i];
            self.prev_buffer[i] = b;
            i = i + 1;
        }
        assert(self.prev_buffer@ =~= self.back_buffer@);
        self.dirty = false;
        true
    }

    /// Fills every pixel of the back buffer with `color`. Of each pixel the
    /// first three bytes take red, green and blue, and the fourth, where
    /// the pixel has one, alpha.
    pub fn clear(&mut self, color: Color)
        requires
            old(self).wf(),
            old(self).screen().holds_rgb(),
        ensures
            final(self).back_buffer() == cleared(
                old(self).screen(),
                color,
                old(self).back_buffer(),
            ),
            forall|x: int, y: int, k: int|
                0 <= x < old(self).screen().width && 0 <= y < old(self).screen().height && 0 <= k
                    < 4 && k < old(self).screen().pixel_bytes() ==> final(self).back_buffer()[#[trigger] old(
                    self,
                ).screen().offset_of(x, y, k)] == channel(color, k),
            final(self).previous_frame() == old(self).previous_frame(),
            final(self).dirty_flag() == old(self).dirty_flag(),
            final(self).screen() == old(self).screen(),
            final(self).wf(),
    {
        let ghost info = self.info;
        let ghost before = self.back_buffer@;
        let stride: usize = self.info.stride as usize;
        let width: usize = self.info.width as usize;
        let height: usize = self.info.height as usize;
        let pb: usize = (self.info.bpp / 8) as usize;
        let mut y: usize = 0;
        while y < height
            invariant
                info == old(self).info,
                self.info == info,
                info.holds_rgb(),
                before == old(self).back_buffer@,
                stride == info.stride,
                width == info.width,
                height == info.height,
                pb == info.pixel_bytes(),
                self.back_buffer@.len() == stride * height,
                self.prev_buffer@ == old(self).prev_buffer@,
                self.dirty == old(self).dirty,
                y <= height,
                forall|i: int|
                    0 <= i < y * stride ==> self.back_buffer@[i] == cleared_byte(
                        info,
                        color,
                        before,
                        i,
                    ),
                forall|i: int| y * stride <= i < stride * height ==> self.back_buffer@[i] == before[i],
            decreases height - y,
        {
            assert(y * stride + stride <= stride * height && 0 <= y * stride) by (nonlinear_arith)
                requires
                    0 <= y < height,
                    0 <= stride,
            ;
            let len: usize = self.back_buffer.len();
            let row: usize = y * stride;
            let mut x: usize = 0;
            while x < width
                invariant
                    self.info == info,
                    info.holds_rgb(),
                    stride == info.stride,
                    width == info.width,
                    height == info.height,
                    pb == info.pixel_bytes(),
                    len == stride * height,
                    self.back_buffer@.len() == len,
                    self.prev_buffer@ == old(self).prev_buffer@,
                    self.dirty == old(self).dirty,
                    y < height,
                    row == y * stride,
                    row + stride <= len,
                    x <= width,
                    width * pb <= stride,
                    0 <= x * pb <= width * pb,
                    forall|i: int|
                        0 <= i < row + x * pb ==> self.back_buffer@[i] == cleared_byte(
                            info,
                            color,
                            before,
                            i,
                        ),
                    forall|i: int| row + x * pb <= i < len ==> self.back_buffer@[i] == before[i],
                decreases width - x,
            {
                assert(x * pb + pb == (x + 1) * pb && (x + 1) * pb <= width * pb) by (nonlinear_arith)
                    requires
                        0 <= x < width,
                        0 <= pb,
                ;
                let off: usize = row + x * pb;
                let ghost mid = self.back_buffer@;
                self.back_buffer[off] = color.r;
                self.back_buffer[off + 1] = color.g;
                self.back_buffer[off + 2] = color.b;
                if pb >= 4 {
                    self.back_buffer[off + 3] = color.a;
                }
                proof {
                    assert forall|i: int| off <= i < off + pb implies self.back_buffer@[i]
                        == cleared_byte(info, color, before, i) by {
                        lemma_pixel_offset(info, x as int, y as int, i - off);
                        assert(mid[i] == before[i]);
                    }
                }
                x = x + 1;
            }
            proof {
                assert forall|i: int| row + width * pb <= i < row + stride implies self.back_buffer@[i]
                    == cleared_byte(info, color, before, i) by {
                    lemma_row_padding(info, y as int, i - row);
                }
                assert((y + 1) * stride == row + stride) by (nonlinear_arith)
                    requires
                        row == y * stride,
                ;
            }
            y = y + 1;
        }
        proof {
            assert(height * stride == stride * height) by (nonlinear_arith);
            assert(self.back_buffer@ =~= cleared(info, color, before));
            assert forall|x: int, y: int, k: int|
                0 <= x < info.width && 0 <= y < info.height && 0 <= k < 4 && k
                    < info.pixel_bytes() implies self.back_buffer@[#[trigger] info.offset_of(
                x,
                y,
                k,
            )] == channel(color, k) by {
                lemma_pixel_offset(info, x, y, k);
                assert((y + 1) * info.stride <= info.stride * info.height) by (nonlinear_arith)
                    requires
                        0 <= y < info.height,
                        0 <= info.stride,
                ;
            }
        }
    }
}

} // verus!
