//! Background layers: tiled text backgrounds, affine (rotation/scaling)
//! backgrounds and the two bitmap modes.
use vstd::prelude::*;
use crate::bits::lemma_nibbles;
use crate::bits::lemma_bytes_u16;
use crate::bits::{fits_i32, lemma_and_bound, lemma_and_bound16};
use crate::ppu::PPU;
use crate::ppu::compositor::{io16, read_io16};

verus! {

broadcast use lemma_and_bound, lemma_and_bound16;

/// Whether `q` is `p` with background row `bg` of the layer buffers repainted by
/// `pix`: where `pix` gives a colour the pixel takes it and becomes opaque, where it
/// gives none the pixel is left alone; nothing else changes.
pub open spec fn bg_row_drawn(p: PPU, q: PPU, bg: int, pix: spec_fn(int) -> Option<u16>) -> bool {
    &&& q == (PPU { bg_color: q.bg_color, bg_opaque: q.bg_opaque, ..p })
    &&& forall|x: int|
        0 <= x < 240 ==> match #[trigger] pix(x) {
            Some(c) => q.bg_color[bg * 240 + x] == c && q.bg_opaque[bg * 240 + x],
            None => q.bg_color[bg * 240 + x] == p.bg_color[bg * 240 + x] && q.bg_opaque[bg * 240 + x]
                == p.bg_opaque[bg * 240 + x],
        }
    &&& forall|i: int|
        0 <= i < 960 && !(bg * 240 <= i < bg * 240 + 240) ==> q.bg_color[i] == p.bg_color[i]
            && q.bg_opaque[i] == p.bg_opaque[i]
}

/// The 15-bit colour at byte offset `2 * i` of palette RAM.
pub open spec fn palette_colour(palette: [u8; 1024], i: int) -> u16 {
    (palette[2 * i] + palette[2 * i + 1] * 256) as u16
}

/// Where a text background pixel's map entry lies and which pixel of the tile it
/// shows: (byte offset of the entry in VRAM, x and y within the tile).
pub open spec fn text_entry(x: int, line: int, mosaic_on: bool, mh: int, mv: int, hofs: int, vofs: int, screen_base: int, size: int) -> (int, int, int) {
    let ex = if mosaic_on { x - x % mh } else { x };
    let ey = if mosaic_on { line - line % mv } else { line };
    let mx = (ex + hofs) % 512;
    let my = (ey + vofs) % 512;
    let tile_x = mx / 8;
    let tile_y = my / 8;
    let block = if size == 0 {
        0
    } else if size == 1 {
        tile_x / 32
    } else if size == 2 {
        tile_y / 32
    } else {
        (tile_y / 32) * 2 + tile_x / 32
    };
    (screen_base + block * 2048 + ((tile_y % 32) * 32 + tile_x % 32) * 2, mx % 8, my % 8)
}

/// The colour of a text background pixel from its map entry at `e0` and its
/// position (`px`, `py`) in the tile, or `None` when transparent. The entry holds
/// the tile number (bits 9-0), flips (bits 10, 11) and 4bpp palette bank (bits
/// 15-12); colour index 0, and lookups past VRAM or palette RAM, are transparent.
pub open spec fn text_colour(vram: [u8; 98304], palette: [u8; 1024], e0: int, px: int, py: int, char_base: int, is8: bool) -> Option<u16> {
    if e0 + 1 >= 98304 {
        None
    } else {
        let entry = vram[e0] + vram[e0 + 1] * 256;
        let tile = entry % 1024;
        let sy = if (entry / 2048) % 2 == 1 { 7 - py } else { py };
        let sx = if (entry / 1024) % 2 == 1 { 7 - px } else { px };
        let pal_base = if is8 { 0 } else { (entry / 4096) * 16 };
        let ci: Option<int> = if is8 {
            let off = char_base + tile * 64 + sy * 8 + sx;
            if off >= 98304 { None } else { Some(vram[off] as int) }
        } else {
            let off = char_base + tile * 32 + sy * 4 + sx / 2;
            if off >= 98304 {
                None
            } else if sx % 2 == 0 {
                Some((vram[off] % 16) as int)
            } else {
                Some((vram[off] / 16) as int)
            }
        };
        match ci {
            None => None,
            Some(c) => if c == 0 || (pal_base + c) * 2 + 1 >= 1024 {
                None
            } else {
                Some(palette_colour(palette, pal_base + c))
            },
        }
    }
}

/// The colour of text background `bg` at screen pixel (`x`, `line`), or `None` when
/// it is transparent. BGCNT (0x08 + 2bg) gives the character base (bits 3-2, 16 KiB
/// units), 8bpp (bit 7), mosaic (bit 6), screen base (bits 12-8, 2 KiB units) and
/// size (bits 15-14); BGxHOFS/VOFS scroll by 9 bits. With mosaic the screen
/// coordinates snap to the MOSAIC grid first.
pub open spec fn text_bg_pixel(io: [u8; 1024], vram: [u8; 98304], palette: [u8; 1024], bg: int, line: int, x: int) -> Option<u16> {
    let cnt = io16(io, 8 + bg * 2);
    let mosaic = io16(io, 0x4C);
    let (e0, px, py) = text_entry(
        x,
        line,
        (cnt >> 6) & 1 == 1,
        (mosaic & 0xF) + 1,
        ((mosaic >> 4) & 0xF) + 1,
        (io16(io, 0x10 + bg * 4) & 0x1FF) as int,
        (io16(io, 0x12 + bg * 4) & 0x1FF) as int,
        ((cnt >> 8) & 0x1F) * 2048,
        ((cnt >> 14) & 3) as int,
    );
    text_colour(vram, palette, e0, px, py, ((cnt >> 2) & 3) * 16384, (cnt >> 7) & 1 == 1)
}

/// The signed halfword at offset `off` of the I/O block.
pub open spec fn io_s16(io: [u8; 1024], off: int) -> int {
    let v = io16(io, off);
    if v >= 0x8000 { v - 0x10000 } else { v as int }
}

/// An affine reference point: the 28-bit signed fixed-point value (8 fractional
/// bits) in the low bits of the word at `off`.
pub open spec fn io_ref28(io: [u8; 1024], off: int) -> int {
    let raw = io[off] + io[off + 1] * 0x100 + io[off + 2] * 0x1_0000 + io[off + 3] * 0x100_0000;
    let r = raw % 0x1000_0000;
    if r >= 0x800_0000 { r - 0x1000_0000 } else { r }
}

/// Side length in pixels of an affine map of size class `s`: 128, 256, 512 or 1024.
pub open spec fn affine_map_px(s: int) -> int {
    if s == 0 { 128 } else if s == 1 { 256 } else if s == 2 { 512 } else { 1024 }
}

/// The scanline number as the affine arithmetic sees it (a signed 32-bit value).
pub open spec fn line_i32(line: usize) -> int {
    (line as i32) as int
}

/// Whether the fixed-point arithmetic of affine background `bg` on `line` stays
/// within signed 32 bits for every pixel of the line.
pub open spec fn affine_fits(io: [u8; 1024], bg: int, line: usize) -> bool {
    let pbase = 0x20 + (bg - 2) * 0x10;
    let rbase = 0x28 + (bg - 2) * 0x10;
    let l = line_i32(line);
    let rx = io_ref28(io, rbase) + io_s16(io, pbase + 2) * l;
    let ry = io_ref28(io, rbase + 4) + io_s16(io, pbase + 6) * l;
    &&& fits_i32(io_s16(io, pbase + 2) * l)
    &&& fits_i32(io_s16(io, pbase + 6) * l)
    &&& fits_i32(rx)
    &&& fits_i32(ry)
    &&& forall|x: int| 0 <= x < 240 ==> fits_i32(rx + #[trigger] (io_s16(io, pbase) * x))
    &&& forall|x: int| 0 <= x < 240 ==> fits_i32(ry + #[trigger] (io_s16(io, pbase + 4) * x))
}

/// On a visible scanline the affine arithmetic never leaves signed 32 bits: the
/// reference point has 28 bits and each matrix term at most 16 bits times 240.
pub proof fn lemma_affine_fits_on_screen(io: [u8; 1024], bg: int, line: usize)
    requires
        bg == 2 || bg == 3,
        line < 160,
    ensures
        affine_fits(io, bg, line),
{
    let pbase = 0x20 + (bg - 2) * 0x10;
    let rbase = 0x28 + (bg - 2) * 0x10;
    let l = line_i32(line);
    assert(l == line as int);
    let pa = io_s16(io, pbase);
    let pb = io_s16(io, pbase + 2);
    let pc = io_s16(io, pbase + 4);
    let pd = io_s16(io, pbase + 6);
    let r0 = io_ref28(io, rbase);
    let r1 = io_ref28(io, rbase + 4);
    assert(-0x800_0000 <= r0 < 0x800_0000 && -0x800_0000 <= r1 < 0x800_0000);
    assert(-0x8000 <= pa < 0x8000 && -0x8000 <= pb < 0x8000 && -0x8000 <= pc < 0x8000 && -0x8000 <= pd < 0x8000);
    assert(-0x8000 * 160 <= pb * l <= 0x8000 * 160) by (nonlinear_arith)
        requires
            -0x8000 <= pb < 0x8000,
            0 <= l < 160,
    ;
    assert(-0x8000 * 160 <= pd * l <= 0x8000 * 160) by (nonlinear_arith)
        requires
            -0x8000 <= pd < 0x8000,
            0 <= l < 160,
    ;
    assert forall|x: int| 0 <= x < 240 implies -0x8000 * 240 <= #[trigger] (pa * x) <= 0x8000 * 240 by {
        assert(-0x8000 * 240 <= pa * x <= 0x8000 * 240) by (nonlinear_arith)
            requires
                -0x8000 <= pa < 0x8000,
                0 <= x < 240,
        ;
    }
    assert forall|x: int| 0 <= x < 240 implies -0x8000 * 240 <= #[trigger] (pc * x) <= 0x8000 * 240 by {
        assert(-0x8000 * 240 <= pc * x <= 0x8000 * 240) by (nonlinear_arith)
            requires
                -0x8000 <= pc < 0x8000,
                0 <= x < 240,
        ;
    }
}

/// The colour of the affine map pixel (`tx`, `ty`), inside the map: its tile number
/// is one byte of the map, its colour index one byte of the 8bpp tile, and index 0
/// is transparent.
pub open spec fn affine_lookup(vram: [u8; 98304], palette: [u8; 1024], tx: int, ty: int, map_px: int, screen_base: int, char_base: int) -> Option<u16> {
    let tile_num = vram[screen_base + (ty / 8) * (map_px / 8) + tx / 8];
    let ci = vram[char_base + tile_num * 64 + (ty % 8) * 8 + tx % 8];
    if ci == 0 {
        None
    } else {
        Some(palette_colour(palette, ci as int))
    }
}

/// The colour of the affine background texel (`tex_x`, `tex_y`), or `None` when
/// transparent (see `affine_bg_pixel`).
pub open spec fn affine_texel(vram: [u8; 98304], palette: [u8; 1024], tex_x: int, tex_y: int, wrap: bool, map_px: int, screen_base: int, char_base: int) -> Option<u16> {
    if wrap {
        affine_lookup(vram, palette, tex_x % map_px, tex_y % map_px, map_px, screen_base, char_base)
    } else if tex_x < 0 || tex_x >= map_px || tex_y < 0 || tex_y >= map_px {
        None
    } else {
        affine_lookup(vram, palette, tex_x, tex_y, map_px, screen_base, char_base)
    }
}

/// The colour of affine background `bg` (2 or 3) at (`x`, `line`), or `None` when
/// transparent. The screen point maps to texture space through the reference point
/// (BGxX/Y) and matrix (BGxPA-PD, 8.8 fixed point); the fraction is dropped. Outside
/// the square map the pixel is transparent unless BGCNT bit 13 wraps it around. The
/// map holds one-byte tile numbers; tiles are 8bpp and colour index 0 is transparent.
pub open spec fn affine_bg_pixel(io: [u8; 1024], vram: [u8; 98304], palette: [u8; 1024], bg: int, line: usize, x: int) -> Option<u16> {
    let cnt = io16(io, 8 + bg * 2);
    let char_base = ((cnt >> 2) & 3) * 0x4000;
    let screen_base = ((cnt >> 8) & 0x1F) * 0x800;
    let wrap = (cnt >> 13) & 1 == 1;
    let map_px = affine_map_px(((cnt >> 14) & 3) as int);
    let pbase = 0x20 + (bg - 2) * 0x10;
    let rbase = 0x28 + (bg - 2) * 0x10;
    let l = line_i32(line);
    let tex_x = (io_ref28(io, rbase) + io_s16(io, pbase + 2) * l + io_s16(io, pbase) * x) / 256;
    let tex_y = (io_ref28(io, rbase + 4) + io_s16(io, pbase + 6) * l + io_s16(io, pbase + 4) * x) / 256;
    affine_texel(vram, palette, tex_x, tex_y, wrap, map_px, screen_base as int, char_base as int)
}

impl PPU {
    /// Draws text background `bg` for `line` (see `text_bg_pixel`).
    pub(crate) fn render_bg_text(&mut self, bg_num: usize, line: usize, vram: &[u8; 98304], io: &[u8; 1024], palette: &[u8; 1024])
        requires
            bg_num < 4,
            line + 512 <= usize::MAX,
        ensures
            bg_row_drawn(
                *old(self),
                *final(self),
                bg_num as int,
                |x: int| text_bg_pixel(*io, *vram, *palette, bg_num as int, line as int, x),
            ),
    {
        let ghost p0 = *self;
        let cnt_off = 8 + bg_num * 2;
        let bgcnt = read_io16(io, cnt_off);
        let char_base = ((bgcnt >> 2) & 0b11) as usize * 16384;
        let is_8bpp = (bgcnt >> 7) & 1 == 1;
        let screen_base = ((bgcnt >> 8) & 0b11111) as usize * 2048;
        let screen_size = (bgcnt >> 14) & 0b11;
        let bg_mosaic = (bgcnt >> 6) & 1 == 1;
        let mosaic = read_io16(io, 0x4C);
        let mos_h = (mosaic & 0xF) as usize + 1;
        let mos_v = ((mosaic >> 4) & 0xF) as usize + 1;
        let hofs = read_io16(io, 0x10 + bg_num * 4);
        let vofs = read_io16(io, 0x12 + bg_num * 4);
        let hofs = (hofs & 0x1FF) as usize;
        let vofs = (vofs & 0x1FF) as usize;
        let mut screen_x: usize = 0;
        while screen_x < 240
            invariant
                screen_x <= 240,
                bg_num < 4,
                line + 512 <= usize::MAX,
                bgcnt == io16(*io, 8 + bg_num * 2),
                char_base == ((bgcnt >> 2) & 3) * 16384,
                is_8bpp == ((bgcnt >> 7) & 1 == 1),
                screen_base == ((bgcnt >> 8) & 0x1F) * 2048,
                screen_size == (bgcnt >> 14) & 3,
                bg_mosaic == ((bgcnt >> 6) & 1 == 1),
                mosaic == io16(*io, 0x4C),
                mos_h == (mosaic & 0xF) + 1,
                mos_v == ((mosaic >> 4) & 0xF) + 1,
                hofs == io16(*io, 0x10 + bg_num * 4) & 0x1FF,
                vofs == io16(*io, 0x12 + bg_num * 4) & 0x1FF,
                *self == (PPU { bg_color: self.bg_color, bg_opaque: self.bg_opaque, ..p0 }),
                forall|x: int|
                    0 <= x < screen_x ==> match #[trigger] text_bg_pixel(
                        *io,
                        *vram,
                        *palette,
                        bg_num as int,
                        line as int,
                        x,
                    ) {
                        Some(c) => self.bg_color[bg_num * 240 + x] == c && self.bg_opaque[bg_num * 240
                            + x],
                        None => self.bg_color[bg_num * 240 + x] == p0.bg_color[bg_num * 240 + x]
                            && self.bg_opaque[bg_num * 240 + x] == p0.bg_opaque[bg_num * 240 + x],
                    },
                forall|i: int|
                    0 <= i < 960 && !(bg_num * 240 <= i < bg_num * 240 + screen_x) ==> self.bg_color[i]
                        == p0.bg_color[i] && self.bg_opaque[i] == p0.bg_opaque[i],
            decreases 240 - screen_x,
        {
            let (e0, px, py) = text_entry_exec(
                screen_x,
                line,
                bg_mosaic,
                mos_h,
                mos_v,
                hofs,
                vofs,
                screen_base,
                screen_size,
            );
            let pix = text_colour_exec(vram, palette, e0, px, py, char_base, is_8bpp);
            assert(pix == text_bg_pixel(*io, *vram, *palette, bg_num as int, line as int, screen_x as int));
            match pix {
                Some(colour) => {
                    self.bg_color[bg_num * 240 + screen_x] = colour;
                    self.bg_opaque[bg_num * 240 + screen_x] = true;
                },
                None => {},
            }
            screen_x += 1;
        }
    }
}

/// Locates the map entry of a text background pixel (see `text_entry`).
fn text_entry_exec(
    screen_x: usize,
    line: usize,
    bg_mosaic: bool,
    mos_h: usize,
    mos_v: usize,
    hofs: usize,
    vofs: usize,
    screen_base: usize,
    screen_size: u16,
) -> (r: (usize, usize, usize))
    requires
        screen_x < 240,
        line + 512 <= usize::MAX,
        screen_base <= 31 * 2048,
        screen_size <= 3,
        1 <= mos_h <= 16,
        1 <= mos_v <= 16,
        hofs <= 0x1FF,
        vofs <= 0x1FF,
    ensures
        (r.0 as int, r.1 as int, r.2 as int) == text_entry(
            screen_x as int,
            line as int,
            bg_mosaic,
            mos_h as int,
            mos_v as int,
            hofs as int,
            vofs as int,
            screen_base as int,
            screen_size as int,
        ),
        r.0 <= 31 * 2048 + 3 * 2048 + 2046,
        r.1 < 8,
        r.2 < 8,
{
    proof {
        vstd::arithmetic::div_mod::lemma_mod_decreases(screen_x as nat, mos_h as nat);
        vstd::arithmetic::div_mod::lemma_mod_decreases(line as nat, mos_v as nat);
    }
    let (eff_x, eff_y) = if bg_mosaic {
        (screen_x - screen_x % mos_h, line - line % mos_v)
    } else {
        (screen_x, line)
    };
    let map_x = (eff_x + hofs) % 512;
    let map_y = (eff_y + vofs) % 512;
    let tile_x = map_x / 8;
    let tile_y = map_y / 8;
    let px = map_x % 8;
    let py = map_y % 8;
    let tx = tile_x % 32;
    let ty = tile_y % 32;
    let block_x = tile_x / 32;
    let block_y = tile_y / 32;
    let block_offset = if screen_size == 0 {
        0
    } else if screen_size == 1 {
        block_x
    } else if screen_size == 2 {
        block_y
    } else {
        block_y * 2 + block_x
    };
    let entry_idx = ty * 32 + tx;
    (screen_base + block_offset * 2048 + entry_idx * 2, px, py)
}

/// The colour of a text background pixel from its map entry (see `text_colour`).
fn text_colour_exec(
    vram: &[u8; 98304],
    palette: &[u8; 1024],
    e0: usize,
    px: usize,
    py: usize,
    char_base: usize,
    is_8bpp: bool,
) -> (r: Option<u16>)
    requires
        e0 <= 31 * 2048 + 3 * 2048 + 2046,
        px < 8,
        py < 8,
        char_base <= 3 * 16384,
    ensures
        r == text_colour(*vram, *palette, e0 as int, px as int, py as int, char_base as int, is_8bpp),
{
    if e0 + 1 >= 98304 {
        return None;
    }
    let lo = vram[e0] as u16;
    let hi = vram[e0 + 1] as u16;
    let entry = lo | (hi << 8);
    proof {
        lemma_bytes_u16(lo, hi);
    }
    let tile_num = (entry & 0x3FF) as usize;
    let flip_h = (entry >> 10) & 1 == 1;
    let flip_v = (entry >> 11) & 1 == 1;
    assert((entry & 0x3FF) == entry % 1024 && ((entry >> 10) & 1 == 1) == ((entry / 1024) % 2 == 1)
        && ((entry >> 11) & 1 == 1) == ((entry / 2048) % 2 == 1) && ((entry >> 12) & 0xF)
        == entry / 4096) by (bit_vector);
    let pal_base = if is_8bpp {
        0
    } else {
        ((entry >> 12) & 0xF) as usize * 16
    };
    let sy = if flip_v {
        7 - py
    } else {
        py
    };
    let sx = if flip_h {
        7 - px
    } else {
        px
    };
    let colour_index = if is_8bpp {
        let off = char_base + tile_num * 64 + sy * 8 + sx;
        if off >= 98304 {
            return None;
        }
        vram[off] as usize
    } else {
        let off = char_base + tile_num * 32 + sy * 4 + sx / 2;
        if off >= 98304 {
            return None;
        }
        let byte = vram[off];
        proof {
            lemma_nibbles(byte);
        }
        if sx % 2 == 0 {
            (byte & 0xF) as usize
        } else {
            ((byte >> 4) & 0xF) as usize
        }
    };
    if colour_index == 0 {
        return None;
    }
    let pal_idx = (pal_base + colour_index) * 2;
    if pal_idx + 1 >= 1024 {
        return None;
    }
    let plo = palette[pal_idx] as u16;
    let phi = palette[pal_idx + 1] as u16;
    proof {
        lemma_bytes_u16(plo, phi);
    }
    Some(plo | (phi << 8))
}

/// Reads a signed halfword of the I/O block (see `io_s16`).
fn read_io_s16(io: &[u8; 1024], off: usize) -> (r: i32)
    requires
        off + 1 < 1024,
    ensures
        r == io_s16(*io, off as int),
{
    let v = read_io16(io, off);
    assert((v as i16 as i32) == (if v >= 0x8000 { ((v as i32) - 0x10000) as i32 } else { v as i32 }))
        by (bit_vector);
    (v as i16) as i32
}

/// Reads an affine reference point (see `io_ref28`).
fn read_io_ref28(io: &[u8; 1024], off: usize) -> (r: i32)
    requires
        off + 3 < 1024,
    ensures
        r == io_ref28(*io, off as int),
{
    let b0 = io[off] as u32;
    let b1 = io[off + 1] as u32;
    let b2 = io[off + 2] as u32;
    let b3 = io[off + 3] as u32;
    let raw = b0 | (b1 << 8) | (b2 << 16) | (b3 << 24);
    assert(raw == b0 + b1 * 0x100 + b2 * 0x1_0000 + b3 * 0x100_0000) by (bit_vector)
        requires
            raw == b0 | (b1 << 8) | (b2 << 16) | (b3 << 24),
            b0 <= 0xFF,
            b1 <= 0xFF,
            b2 <= 0xFF,
            b3 <= 0xFF,
    ;
    let r = ((raw << 4) as i32) >> 4;
    assert(r == (if raw % 0x1000_0000 >= 0x800_0000 {
        ((raw % 0x1000_0000) as i32 - 0x1000_0000) as i32
    } else {
        (raw % 0x1000_0000) as i32
    })) by (bit_vector)
        requires
            r == ((raw << 4) as i32) >> 4,
    ;
    r
}

/// The colour of an affine map pixel inside the map (see `affine_lookup`).
fn affine_lookup_exec(
    vram: &[u8; 98304],
    palette: &[u8; 1024],
    tx: usize,
    ty: usize,
    map_px: usize,
    screen_base: usize,
    char_base: usize,
) -> (r: Option<u16>)
    requires
        map_px == 128 || map_px == 256 || map_px == 512 || map_px == 1024,
        tx < map_px,
        ty < map_px,
        screen_base <= 31 * 0x800,
        char_base <= 3 * 0x4000,
    ensures
        r == affine_lookup(*vram, *palette, tx as int, ty as int, map_px as int, screen_base as int, char_base as int),
{
    let tiles_per_row = map_px / 8;
    let tile_x = tx / 8;
    let tile_y = ty / 8;
    assert(tile_y * tiles_per_row + tile_x < 128 * 128) by (nonlinear_arith)
        requires
            tile_y < tiles_per_row,
            tile_x < tiles_per_row,
            tiles_per_row <= 128,
    ;
    let tile_num = vram[screen_base + tile_y * tiles_per_row + tile_x] as usize;
    let colour_index = vram[char_base + tile_num * 64 + (ty % 8) * 8 + tx % 8] as usize;
    if colour_index == 0 {
        return None;
    }
    let plo = palette[colour_index * 2] as u16;
    let phi = palette[colour_index * 2 + 1] as u16;
    proof {
        lemma_bytes_u16(plo, phi);
    }
    Some(plo | (phi << 8))
}

/// The colour of an affine background texel (see `affine_texel`).
fn affine_texel_exec(
    vram: &[u8; 98304],
    palette: &[u8; 1024],
    tex_x: i32,
    tex_y: i32,
    wrap: bool,
    map_px: i32,
    screen_base: usize,
    char_base: usize,
) -> (r: Option<u16>)
    requires
        map_px == 128 || map_px == 256 || map_px == 512 || map_px == 1024,
        screen_base <= 31 * 0x800,
        char_base <= 3 * 0x4000,
    ensures
        r == affine_texel(*vram, *palette, tex_x as int, tex_y as int, wrap, map_px as int, screen_base as int, char_base as int),
{
    let size = map_px as usize;
    if wrap {
        let tx = match tex_x.checked_rem_euclid(map_px) {
            Some(v) => v,
            None => 0,
        };
        let ty = match tex_y.checked_rem_euclid(map_px) {
            Some(v) => v,
            None => 0,
        };
        affine_lookup_exec(vram, palette, tx as usize, ty as usize, size, screen_base, char_base)
    } else if tex_x < 0 || tex_x >= map_px || tex_y < 0 || tex_y >= map_px {
        None
    } else {
        affine_lookup_exec(vram, palette, tex_x as usize, tex_y as usize, size, screen_base, char_base)
    }
}

pub proof fn lemma_floor256(v: i32)
    ensures
        (v >> 8) == v / 256,
{
    assert((v >> 8) == v / 256) by (bit_vector);
}

impl PPU {
    /// Draws affine background `bg` (2 or 3) for `line` (see `affine_bg_pixel`); the
    /// fixed-point arithmetic must stay within signed 32 bits.
    pub(crate) fn render_bg_affine(&mut self, bg_num: usize, line: usize, vram: &[u8; 98304], io: &[u8; 1024], palette: &[u8; 1024])
        requires
            bg_num == 2 || bg_num == 3,
            affine_fits(*io, bg_num as int, line),
        ensures
            bg_row_drawn(
                *old(self),
                *final(self),
                bg_num as int,
                |x: int| affine_bg_pixel(*io, *vram, *palette, bg_num as int, line, x),
            ),
    {
        let ghost p0 = *self;
        let cnt_off = 8 + bg_num * 2;
        let bgcnt = read_io16(io, cnt_off);
        let char_base = ((bgcnt >> 2) & 0b11) as usize * 0x4000;
        let screen_base = ((bgcnt >> 8) & 0b11111) as usize * 0x800;
        let wrap = (bgcnt >> 13) & 1 == 1;
        let size = (bgcnt >> 14) & 0b11;
        let map_px: i32 = if size == 0 {
            128
        } else if size == 1 {
            256
        } else if size == 2 {
            512
        } else {
            1024
        };
        let pbase = 0x20 + (bg_num - 2) * 0x10;
        let rbase = 0x28 + (bg_num - 2) * 0x10;
        let pa = read_io_s16(io, pbase);
        let pb = read_io_s16(io, pbase + 2);
        let pc = read_io_s16(io, pbase + 4);
        let pd = read_io_s16(io, pbase + 6);
        let ref_x = read_io_ref28(io, rbase);
        let ref_y = read_io_ref28(io, rbase + 4);
        let rx_line = ref_x + pb * line as i32;
        let ry_line = ref_y + pd * line as i32;
        let mut x: usize = 0;
        while x < 240
            invariant
                x <= 240,
                bg_num == 2 || bg_num == 3,
                affine_fits(*io, bg_num as int, line),
                bgcnt == io16(*io, 8 + bg_num * 2),
                char_base == ((bgcnt >> 2) & 3) * 0x4000,
                screen_base == ((bgcnt >> 8) & 0x1F) * 0x800,
                wrap == ((bgcnt >> 13) & 1 == 1),
                map_px == affine_map_px(((bgcnt >> 14) & 3) as int),
                pbase == 0x20 + (bg_num - 2) * 0x10,
                pa == io_s16(*io, pbase as int),
                pc == io_s16(*io, pbase + 4),
                rx_line == io_ref28(*io, 0x28 + (bg_num - 2) * 0x10) + io_s16(*io, pbase + 2) * line_i32(line),
                ry_line == io_ref28(*io, 0x28 + (bg_num - 2) * 0x10 + 4) + io_s16(*io, pbase + 6) * line_i32(line),
                *self == (PPU { bg_color: self.bg_color, bg_opaque: self.bg_opaque, ..p0 }),
                forall|i: int|
                    0 <= i < x ==> match #[trigger] affine_bg_pixel(
                        *io,
                        *vram,
                        *palette,
                        bg_num as int,
                        line,
                        i,
                    ) {
                        Some(c) => self.bg_color[bg_num * 240 + i] == c && self.bg_opaque[bg_num * 240
                            + i],
                        None => self.bg_color[bg_num * 240 + i] == p0.bg_color[bg_num * 240 + i]
                            && self.bg_opaque[bg_num * 240 + i] == p0.bg_opaque[bg_num * 240 + i],
                    },
                forall|i: int|
                    0 <= i < 960 && !(bg_num * 240 <= i < bg_num * 240 + x) ==> self.bg_color[i]
                        == p0.bg_color[i] && self.bg_opaque[i] == p0.bg_opaque[i],
            decreases 240 - x,
        {
            assert(fits_i32(rx_line + pa * x) && fits_i32(ry_line + pc * x));
            assert(-0x8000 <= pa <= 0x7FFF && -0x8000 <= pc <= 0x7FFF);
            assert(fits_i32(pa * x) && fits_i32(pc * x)) by (nonlinear_arith)
                requires
                    -0x8000 <= pa <= 0x7FFF,
                    -0x8000 <= pc <= 0x7FFF,
                    0 <= x < 240,
            ;
            let tex_x = (rx_line + pa * x as i32) >> 8;
            let tex_y = (ry_line + pc * x as i32) >> 8;
            proof {
                lemma_floor256((rx_line + pa * x) as i32);
                lemma_floor256((ry_line + pc * x) as i32);
            }
            let pix = affine_texel_exec(vram, palette, tex_x, tex_y, wrap, map_px, screen_base, char_base);
            match pix {
                Some(colour) => {
                    self.bg_color[bg_num * 240 + x] = colour;
                    self.bg_opaque[bg_num * 240 + x] = true;
                },
                None => {},
            }
            x += 1;
        }
    }
}

} // verus!
