//! A compact glyph format for text drawing.
//!
//! A font holds a 128-entry table of byte offsets (one per ASCII code point,
//! an all-ones offset meaning the glyph is absent), a three-entry color
//! palette and a glyph height, followed by the packed pixel stream: each
//! glyph starts with a 4-byte big-endian pixel count, then its pixels at two
//! bits per pixel, most significant bits first, `0` transparent and `1..=3`
//! a palette index.

use vstd::prelude::*;

verus! {

/// Marks an absent glyph in the offset table.
pub const GLYPH_ABSENT: u32 = 0xffff_ffff;

/// One pixel of a glyph on its way to the screen.
#[derive(Debug, Copy, Clone, PartialEq, Eq, Structural)]
pub enum Color {
    /// An RGB565 color from the font's palette.
    Opaque(u16),
    /// The pixel leaves what is under it visible.
    Transparent,
}

/// Where one glyph's pixels live in the font's pixel stream.
#[derive(Debug, Copy, Clone, PartialEq, Eq, Structural)]
pub struct Extents {
    /// Start of the glyph's pixel data in the stream (past its length field).
    offset: usize,
    /// Number of pixels in the glyph.
    len_in_pixels: usize,
}

impl Extents {
    pub closed spec fn spec_offset(self) -> int {
        self.offset as int
    }

    pub closed spec fn spec_len_in_pixels(self) -> int {
        self.len_in_pixels as int
    }

    pub fn offset(self) -> (r: usize)
        ensures
            r == self.spec_offset(),
    {
        self.offset
    }

    pub fn len_in_pixels(self) -> (r: usize)
        ensures
            r == self.spec_len_in_pixels(),
    {
        self.len_in_pixels
    }

    /// Number of bytes the pixels occupy: four pixels per byte, rounded up.
    pub fn len_in_bytes(self) -> (r: usize)
        requires
            self.spec_len_in_pixels() + 3 <= usize::MAX,
        ensures
            r == (self.spec_len_in_pixels() + 3) / 4,
    {
        (self.len_in_pixels + 3) / 4
    }

    /// The glyph's width in pixels (its pixels are stored row major).
    pub fn width(self, font: &Font) -> (r: usize)
        requires
            font.wf(),
        ensures
            r == self.spec_len_in_pixels() / font.spec_height(),
    {
        self.len_in_pixels / (font.height() as usize)
    }
}

/// A font: the glyph height, the palette, the per-code-point offset table
/// and the packed pixel stream.
pub struct Font {
    height: u32,
    palette: Vec<u16>,
    keys: Vec<u32>,
    pixels: Vec<u8>,
}

/// A 32-bit big-endian value from four bytes.
pub open spec fn be32(b0: u8, b1: u8, b2: u8, b3: u8) -> int {
    (b0 as int) * 0x100_0000 + (b1 as int) * 0x1_0000 + (b2 as int) * 0x100 + (b3 as int)
}

/// The two-bit value at pixel slot `sub` of a packed byte, most significant
/// bits first.
pub open spec fn two_bits(byte: u8, sub: int) -> int {
    if sub == 0 {
        (byte as int) / 64
    } else if sub == 1 {
        ((byte as int) / 16) % 4
    } else if sub == 2 {
        ((byte as int) / 4) % 4
    } else {
        (byte as int) % 4
    }
}

impl Font {
    pub closed spec fn spec_height(self) -> int {
        self.height as int
    }

    pub closed spec fn spec_palette(self) -> Seq<u16> {
        self.palette@
    }

    pub closed spec fn spec_keys(self) -> Seq<u32> {
        self.keys@
    }

    pub closed spec fn spec_pixels(self) -> Seq<u8> {
        self.pixels@
    }

    /// A usable font: positive glyph height, a three-color palette, one
    /// offset per ASCII code point, and every present offset leaving room
    /// for its glyph's 4-byte length field.
    pub open spec fn wf(self) -> bool {
        &&& self.spec_height() >= 1
        &&& self.spec_palette().len() == 3
        &&& self.spec_keys().len() == 128
        &&& forall|k: int|
            0 <= k < 128 && (#[trigger] self.spec_keys()[k]) != GLYPH_ABSENT
                ==> self.spec_keys()[k] + 4 <= self.spec_pixels().len()
    }

    /// Assemble a font from its parts.
    pub fn new(height: u32, palette: Vec<u16>, keys: Vec<u32>, pixels: Vec<u8>) -> (f: Option<
        Font,
    >)
        ensures
            f is Some <==> height >= 1 && palette@.len() == 3 && keys@.len() == 128 && (forall|
                k: int,
            |
                0 <= k < 128 && (#[trigger] keys@[k]) != GLYPH_ABSENT ==> keys@[k] + 4
                    <= pixels@.len()),
            f matches Some(font) ==> font.wf() && font.spec_height() == height
                && font.spec_palette() == palette@ && font.spec_keys() == keys@
                && font.spec_pixels() == pixels@,
    {
        if height < 1 || palette.len() != 3 || keys.len() != 128 {
            return None;
        }
        let mut k: usize = 0;
        while k < 128
            invariant
                0 <= k <= 128,
                keys@.len() == 128,
                forall|j: int|
                    0 <= j < k && (#[trigger] keys@[j]) != GLYPH_ABSENT ==> keys@[j] + 4
                        <= pixels@.len(),
            decreases 128 - k,
        {
            if keys[k] != GLYPH_ABSENT {
                if pixels.len() < 4 || (keys[k] as usize) > pixels.len() - 4 {
                    return None;
                }
            }
            k = k + 1;
        }
        Some(Font { height, palette, keys, pixels })
    }

    pub fn height(&self) -> (r: u32)
        ensures
            r == self.spec_height(),
    {
        self.height
    }

    /// Where the glyph for an ASCII code point lives, or `None` for a code
    /// point past ASCII or one the font has no glyph for. The pixel count is
    /// read from the glyph's 4-byte big-endian length field.
    pub fn extents(&self, ch: u8) -> (r: Option<Extents>)
        requires
            self.wf(),
        ensures
            ch >= 128 ==> r is None,
            ch < 128 && self.spec_keys()[ch as int] == GLYPH_ABSENT ==> r is None,
            ch < 128 && self.spec_keys()[ch as int] != GLYPH_ABSENT ==> (r matches Some(e) && ({
                let off = self.spec_keys()[ch as int] as int;
                &&& e.spec_offset() == off + 4
                &&& e.spec_len_in_pixels() == be32(
                    self.spec_pixels()[off],
                    self.spec_pixels()[off + 1],
                    self.spec_pixels()[off + 2],
                    self.spec_pixels()[off + 3],
                )
            })),
    {
        if ch >= 128 {
            return None;
        }
        let offset = self.keys[ch as usize];
        if offset == GLYPH_ABSENT {
            return None;
        }
        proof {
            assert(self.spec_keys()[ch as int] + 4 <= self.spec_pixels().len());
        }
        let offset = offset as usize;
        let n = self.pixels.len();
        proof {
            assert(offset + 4 <= n);
        }
        let b0 = self.pixels[offset];
        let b1 = self.pixels[offset + 1];
        let b2 = self.pixels[offset + 2];
        let b3 = self.pixels[offset + 3];
        let len_in_pixels: usize = ((b0 as usize) * 0x100_0000 + (b1 as usize) * 0x1_0000 + (
        b2 as usize) * 0x100 + (b3 as usize)) as usize;
        Some(Extents { offset: offset + 4, len_in_pixels })
    }

    /// The glyph's on-screen size at a scale factor: width times scale by
    /// height times scale.
    pub fn extents_size(&self, extents: Extents, scale: u8) -> (s: (usize, usize))
        requires
            self.wf(),
            (extents.spec_len_in_pixels() / self.spec_height()) * scale <= usize::MAX,
            self.spec_height() * scale <= usize::MAX,
        ensures
            s.0 == (extents.spec_len_in_pixels() / self.spec_height()) * scale,
            s.1 == self.spec_height() * scale,
    {
        let height = self.height as usize;
        let scale = scale as usize;
        let width = extents.len_in_pixels / height;
        (width * scale, height * scale)
    }
}

/// Whether a glyph's extents fit a font: whole rows, and the pixel bytes
/// inside the stream.
pub open spec fn extents_wf(font: Font, e: Extents) -> bool {
    &&& e.spec_len_in_pixels() % font.spec_height() == 0
    &&& e.spec_offset() + (e.spec_len_in_pixels() + 3) / 4 <= font.spec_pixels().len()
}

/// The color of pixel `idx` (row major) of a glyph drawn at an integer
/// scale factor: nearest-neighbour scaling maps it back to a source pixel,
/// whose two-bit value selects transparency or a palette color.
pub open spec fn glyph_pixel(font: Font, e: Extents, scale: int, idx: int) -> Color {
    let width = e.spec_len_in_pixels() / font.spec_height();
    let sw = width * scale;
    let x = (idx % sw) / scale;
    let y = (idx / sw) / scale;
    let p = y * width + x;
    let ci = two_bits(font.spec_pixels()[e.spec_offset() + p / 4], p % 4);
    if ci == 0 {
        Color::Transparent
    } else {
        Color::Opaque(font.spec_palette()[ci - 1])
    }
}

impl Font {
    /// The pixels of a glyph at a scale factor, as a pull-based producer.
    pub fn pixels<'a>(&'a self, extents: Extents, scale: u8) -> (p: Pixels<'a>)
        requires
            self.wf(),
            extents_wf(*self, extents),
            scale >= 1,
            extents.spec_len_in_pixels() * scale * scale <= usize::MAX,
        ensures
            p.wf(),
            p.spec_font() == self,
            p.spec_extents() == extents,
            p.spec_scale() == scale as int,
            p.spec_idx() == 0,
    {
        Pixels { font: self, extents, scale: scale as usize, idx: 0 }
    }
}

/// A restartable producer of one glyph's pixels at a scale factor, row
/// major, top to bottom. Pull one pixel at a time with `next`.
pub struct Pixels<'a> {
    font: &'a Font,
    extents: Extents,
    scale: usize,
    idx: usize,
}

impl<'a> Pixels<'a> {
    pub closed spec fn spec_font(self) -> &'a Font {
        self.font
    }

    pub closed spec fn spec_extents(self) -> Extents {
        self.extents
    }

    pub closed spec fn spec_scale(self) -> int {
        self.scale as int
    }

    /// Which pixel comes next.
    pub closed spec fn spec_idx(self) -> int {
        self.idx as int
    }

    /// The producer's font, extents and scale are usable together and the
    /// scaled pixel count fits the machine.
    pub open spec fn wf(self) -> bool {
        &&& self.spec_font().wf()
        &&& extents_wf(*self.spec_font(), self.spec_extents())
        &&& 1 <= self.spec_scale() <= 255
        &&& self.spec_extents().spec_len_in_pixels() * self.spec_scale() * self.spec_scale()
            <= usize::MAX
    }

    /// Produce the next pixel's color, or `None` once every scaled pixel of
    /// the glyph has been produced.
    pub fn next(&mut self) -> (c: Option<Color>)
        requires
            old(self).wf(),
        ensures
            final(self).wf(),
            final(self).spec_font() == old(self).spec_font(),
            final(self).spec_extents() == old(self).spec_extents(),
            final(self).spec_scale() == old(self).spec_scale(),
            c is None <==> old(self).spec_idx() >= old(self).spec_extents().spec_len_in_pixels()
                * old(self).spec_scale() * old(self).spec_scale(),
            c is None ==> *final(self) == *old(self),
            c matches Some(v) ==> v == glyph_pixel(
                *old(self).spec_font(),
                old(self).spec_extents(),
                old(self).spec_scale(),
                old(self).spec_idx(),
            ) && final(self).spec_idx() == old(self).spec_idx() + 1,
    {
        let len = self.extents.len_in_pixels();
        let scale = self.scale;
        proof {
            assert(len * scale <= len * scale * scale) by (nonlinear_arith)
                requires
                    1 <= scale,
                    0 <= len,
            ;
        }
        let scaled_len: usize = (len * scale) * scale;
        proof {
            assert((len * scale) * scale == len * scale * scale) by (nonlinear_arith);
        }
        if self.idx >= scaled_len {
            return None;
        }
        proof {
            assert(len > 0) by (nonlinear_arith)
                requires
                    self.idx < (len * scale) * scale,
                    0 <= self.idx,
                    0 <= len,
            ;
        }
        let height = self.font.height() as usize;
        let width = len / height;
        proof {
            vstd::arithmetic::div_mod::lemma_fundamental_div_mod(len as int, height as int);
            assert(len == height * width + 0);
            assert(width >= 1) by (nonlinear_arith)
                requires
                    len == height * width,
                    len > 0,
                    height >= 1,
                    width >= 0,
            ;
            assert(width * scale <= len * scale && width <= len) by (nonlinear_arith)
                requires
                    1 <= height,
                    len == height * width,
                    0 <= width,
                    1 <= scale,
            ;
        }
        let sw = width * scale;
        proof {
            assert(self.idx < sw * (height * scale)) by (nonlinear_arith)
                requires
                    self.idx < (len * scale) * scale,
                    len == height * width,
                    sw == width * scale,
                    1 <= scale,
                    1 <= height,
                    1 <= width,
            ;
            vstd::arithmetic::div_mod::lemma_multiply_divide_lt(
                self.idx as int,
                sw as int,
                (height * scale) as int,
            );
            vstd::arithmetic::div_mod::lemma_mod_bound(self.idx as int, sw as int);
        }
        let sx = self.idx % sw;
        let sy = self.idx / sw;
        proof {
            assert(sy < scale * height && sx < scale * width) by (nonlinear_arith)
                requires
                    sy < height * scale,
                    sx < sw,
                    sw == width * scale,
            ;
            vstd::arithmetic::div_mod::lemma_multiply_divide_lt(
                sy as int,
                scale as int,
                height as int,
            );
            vstd::arithmetic::div_mod::lemma_multiply_divide_lt(
                sx as int,
                scale as int,
                width as int,
            );
        }
        let x = sx / scale;
        let y = sy / scale;
        proof {
            assert(y * width + x < len && y * width + x >= 0) by (nonlinear_arith)
                requires
                    y < height,
                    x < width,
                    0 <= y,
                    0 <= x,
                    1 <= width,
                    len == height * width,
            ;
        }
        let p = y * width + x;
        proof {
            vstd::arithmetic::div_mod::lemma_div_is_ordered(p as int, len as int - 1, 4);
            vstd::arithmetic::div_mod::lemma_div_plus_one(len as int - 1, 4);
            assert(p / 4 < (len + 3) / 4);
            vstd::arithmetic::div_mod::lemma_mod_bound(p as int, 4);
        }
        let stream_len = self.font.pixels.len();
        proof {
            assert(self.extents.spec_offset() + p / 4 < stream_len);
        }
        let byte = self.font.pixels[self.extents.offset() + p / 4];
        let sub = p % 4;
        let color_idx: u8 = if sub == 0 {
            proof {
                assert(byte >> 6u8 == byte / 64) by (bit_vector);
            }
            byte >> 6
        } else if sub == 1 {
            proof {
                assert((byte >> 4u8) & 3 == (byte / 16) % 4) by (bit_vector);
            }
            (byte >> 4) & 3
        } else if sub == 2 {
            proof {
                assert((byte >> 2u8) & 3 == (byte / 4) % 4) by (bit_vector);
            }
            (byte >> 2) & 3
        } else {
            proof {
                assert(byte & 3 == byte % 4) by (bit_vector);
            }
            byte & 3
        };
        proof {
            assert(byte / 64 < 4) by (bit_vector);
            assert(color_idx == two_bits(byte, sub as int));
            assert(two_bits(byte, sub as int) < 4);
        }
        self.idx = self.idx + 1;
        if color_idx == 0 {
            Some(Color::Transparent)
        } else {
            Some(Color::Opaque(self.font.palette[(color_idx - 1) as usize]))
        }
    }
}

} // verus!
