//! Window regions and the final compositor of a scanline.
use vstd::prelude::*;
use crate::bits::lemma_bytes_u16;
use crate::bits::lemma_and_bound;
use crate::ppu::PPU;
use crate::ppu::blend::{
    alpha_blend, brighten, darken, alpha_blend_spec, brighten_spec, darken_spec, channel, min32,
};

verus! {

broadcast use lemma_and_bound;

/// The little-endian halfword at offset `off` of the I/O block.
pub open spec fn io16(io: [u8; 1024], off: int) -> u16 {
    (io[off] + io[off + 1] * 256) as u16
}

/// Whether `v` lies in the window span from `a` (inclusive) to `b` (exclusive);
/// when `a > b` the span wraps around the end of the screen.
pub open spec fn in_span(v: u32, a: u32, b: u32) -> bool {
    if a <= b {
        a <= v && v < b
    } else {
        v >= a || v < b
    }
}

/// Left (inclusive) and right (exclusive) edges of window `n`: bits 15-8 and 7-0
/// of WIN0H (0x40) or WIN1H (0x42).
pub open spec fn win_x_range_spec(io: [u8; 1024], n: int) -> (u32, u32) {
    let reg = io16(io, 0x40 + n * 2);
    (((reg >> 8) & 0xFF) as u32, (reg & 0xFF) as u32)
}

/// Whether scanline `line` lies inside window `n`'s vertical span (WIN0V at 0x44,
/// WIN1V at 0x46; top in bits 15-8, bottom in 7-0).
pub open spec fn win_y_in_range_spec(io: [u8; 1024], n: int, line: usize) -> bool {
    let reg = io16(io, 0x44 + n * 2);
    in_span(line as u32, ((reg >> 8) & 0xFF) as u32, (reg & 0xFF) as u32)
}

/// The six enable bits of pixel `x` on `line`. Without any window (DISPCNT bits
/// 13-15 clear) everything is enabled; otherwise WIN0 beats WIN1, which beats the
/// OBJ window, which beats the outside region (WININ and WINOUT give each region's bits).
pub open spec fn window_mask_at(p: PPU, io: [u8; 1024], line: usize, x: int) -> u8 {
    let dispcnt = io16(io, 0);
    let w0 = (dispcnt >> 13) & 1 == 1;
    let w1 = (dispcnt >> 14) & 1 == 1;
    let ow = (dispcnt >> 15) & 1 == 1;
    let winin = io16(io, 0x48);
    let winout = io16(io, 0x4A);
    if !w0 && !w1 && !ow {
        0x3F
    } else if w0 && win_y_in_range_spec(io, 0, line) && in_span(
        x as u32,
        win_x_range_spec(io, 0).0,
        win_x_range_spec(io, 0).1,
    ) {
        (winin & 0x3F) as u8
    } else if w1 && win_y_in_range_spec(io, 1, line) && in_span(
        x as u32,
        win_x_range_spec(io, 1).0,
        win_x_range_spec(io, 1).1,
    ) {
        ((winin >> 8) & 0x3F) as u8
    } else if ow && p.obj_window[x] {
        ((winout >> 8) & 0x3F) as u8
    } else {
        (winout & 0x3F) as u8
    }
}

/// The window regions of pixel `x` on `line` and the enable bits each gives,
/// read from the register bytes: no window enabled (DISPCNT bits 13-15 clear)
/// enables all six layers; inside WIN0 (when enabled) the low byte of WININ
/// (0x48) decides, whatever WIN1 says; inside WIN1 but not WIN0 its high byte
/// (0x49); in the OBJ window, outside both, the high byte of WINOUT (0x4B); and
/// elsewhere the low byte of WINOUT (0x4A). Each region uses bits 5-0 only.
pub proof fn lemma_window_regions(p: PPU, io: [u8; 1024], line: usize, x: int)
    ensures
        ({
            let dispcnt = io16(io, 0);
            let w0 = (dispcnt >> 13) & 1 == 1;
            let w1 = (dispcnt >> 14) & 1 == 1;
            let ow = (dispcnt >> 15) & 1 == 1;
            let in0 = w0 && win_y_in_range_spec(io, 0, line) && in_span(
                x as u32,
                win_x_range_spec(io, 0).0,
                win_x_range_spec(io, 0).1,
            );
            let in1 = w1 && win_y_in_range_spec(io, 1, line) && in_span(
                x as u32,
                win_x_range_spec(io, 1).0,
                win_x_range_spec(io, 1).1,
            );
            let m = window_mask_at(p, io, line, x);
            &&& !w0 && !w1 && !ow ==> m == 0x3F
            &&& in0 ==> m == io[0x48] & 0x3F
            &&& !in0 && in1 ==> m == io[0x49] & 0x3F
            &&& (w0 || w1 || ow) && !in0 && !in1 && ow && p.obj_window[x] ==> m == io[0x4B] & 0x3F
            &&& (w0 || w1 || ow) && !in0 && !in1 && !(ow && p.obj_window[x]) ==> m == io[0x4A] & 0x3F
        }),
{
    crate::bits::lemma_six_bit_fields(io[0x48], io[0x49]);
    crate::bits::lemma_six_bit_fields(io[0x4A], io[0x4B]);
}

/// A visible layer at a pixel: layer id (0-3 BG0-BG3, 4 OBJ, 5 backdrop), colour,
/// and whether it is a semi-transparent sprite.
pub type Layer = (u8, u16, bool);

/// Candidate `k` (0..20) of the layer order at pixel `x`: priority level k / 5,
/// and within a level first the sprite layer, then BG0..BG3. A sprite counts when
/// the window enables OBJ and the sprite's priority is the level; a background when
/// DISPCNT and the window enable it, its BGCNT priority is the level, and it is
/// opaque at `x`.
pub open spec fn candidate(p: PPU, io: [u8; 1024], x: int, k: int) -> Option<Layer> {
    let level = k / 5;
    let j = k % 5;
    let win = p.win_mask[x];
    if j == 0 {
        if (win >> 4) & 1 == 1 && p.obj_priority[x] == level {
            Some((4u8, p.obj_color[x], p.obj_semi[x]))
        } else {
            None
        }
    } else {
        let bg = j - 1;
        if (io16(io, 0) >> (8 + bg) as u16) & 1 == 1 && ((win & 0xF) >> bg as u8) & 1 == 1
            && io[8 + 2 * bg] & 3 == level && p.bg_opaque[bg * 240 + x] {
            Some((bg as u8, p.bg_color[bg * 240 + x], false))
        } else {
            None
        }
    }
}

/// The top and second visible layers from candidate `k` on, given the top layer
/// found so far; missing layers are the backdrop.
pub open spec fn layers_from(p: PPU, io: [u8; 1024], x: int, k: nat, top: Option<Layer>, backdrop: u16) -> (Layer, (u8, u16))
    decreases 20 - k,
{
    if k >= 20 {
        (
            match top {
                Some(t) => t,
                None => (5u8, backdrop, false),
            },
            (5u8, backdrop),
        )
    } else {
        match candidate(p, io, x, k as int) {
            None => layers_from(p, io, x, k + 1, top, backdrop),
            Some(c) => match top {
                None => layers_from(p, io, x, k + 1, Some(c), backdrop),
                Some(t) => (t, (c.0, c.1)),
            },
        }
    }
}

/// The backdrop colour (palette entry 0).
pub open spec fn backdrop_of(palette: [u8; 1024]) -> u16 {
    (palette[0] + palette[1] * 256) as u16
}

/// The 15-bit colour of pixel `x` after colour effects (BLDCNT at 0x50, BLDALPHA
/// at 0x52, BLDY at 0x54, coefficients capped at 16). When the window enables
/// effects: a semi-transparent sprite on top is alpha-blended with a second layer
/// that is a second target; otherwise mode 1 alpha-blends a first-target top with a
/// second-target second layer, mode 2 brightens and mode 3 darkens a first-target
/// top. Else the top colour.
pub open spec fn pixel_colour(p: PPU, io: [u8; 1024], palette: [u8; 1024], x: int) -> u16 {
    let bldcnt = io16(io, 0x50);
    let bldalpha = io16(io, 0x52);
    let bldy = io16(io, 0x54);
    let mode = (bldcnt >> 6) & 3;
    let first = bldcnt & 0x3F;
    let second = (bldcnt >> 8) & 0x3F;
    let eva = min32((bldalpha & 0x1F) as u32, 16);
    let evb = min32(((bldalpha >> 8) & 0x1F) as u32, 16);
    let evy = min32((bldy & 0x1F) as u32, 16);
    let fx = (p.win_mask[x] >> 5) & 1 == 1;
    let (top, sec) = layers_from(p, io, x, 0, None, backdrop_of(palette));
    if top.2 && (second >> sec.0 as u16) & 1 == 1 && fx {
        alpha_blend_spec(top.1, sec.1, eva, evb)
    } else if fx && mode == 1 && (first >> top.0 as u16) & 1 == 1 && (second >> sec.0 as u16) & 1 == 1 {
        alpha_blend_spec(top.1, sec.1, eva, evb)
    } else if fx && mode == 2 && (first >> top.0 as u16) & 1 == 1 {
        brighten_spec(top.1, evy)
    } else if fx && mode == 3 && (first >> top.0 as u16) & 1 == 1 {
        darken_spec(top.1, evy)
    } else {
        top.1
    }
}

/// The three bytes (red, green, blue) of a 15-bit colour on screen: each 5-bit
/// channel shifted left by 3.
pub open spec fn rgb_byte(c: u16, k: int) -> u8 {
    (channel(c, k as u16) * 8) as u8
}

/// Whether the frame shows scanline `line` composited: with forced blank (DISPCNT
/// bit 7) every byte of the line is 255; otherwise pixel `x` shows `pixel_colour`.
pub open spec fn line_composited(p: PPU, fb: [u8; 115200], io: [u8; 1024], palette: [u8; 1024], line: int) -> bool {
    forall|x: int, k: int|
        0 <= x < 240 && 0 <= k < 3 ==> #[trigger] fb[line * 720 + x * 3 + k] == if (io16(io, 0) >> 7) & 1
            == 1 {
            255u8
        } else {
            rgb_byte(pixel_colour(p, io, palette, x), k)
        }
}

/// Reads a little-endian halfword of the I/O block.
pub(crate) fn read_io16(io: &[u8; 1024], off: usize) -> (r: u16)
    requires
        off + 1 < 1024,
    ensures
        r == io16(*io, off as int),
{
    let lo = io[off] as u16;
    let hi = io[off + 1] as u16;
    proof {
        lemma_bytes_u16(lo, hi);
    }
    lo | (hi << 8)
}

impl PPU {
    /// Left and right edges of window `n` (see `win_x_range_spec`).
    fn win_x_range(io: &[u8; 1024], n: usize) -> (r: (u32, u32))
        requires
            n < 2,
        ensures
            r == win_x_range_spec(*io, n as int),
    {
        let reg = read_io16(io, 0x40 + n * 2);
        let x2 = (reg & 0xFF) as u32;
        let x1 = ((reg >> 8) & 0xFF) as u32;
        (x1, x2)
    }

    /// Whether `line` is inside window `n` vertically (see `win_y_in_range_spec`).
    fn win_y_in_range(io: &[u8; 1024], n: usize, line: usize) -> (r: bool)
        requires
            n < 2,
        ensures
            r == win_y_in_range_spec(*io, n as int, line),
    {
        let reg = read_io16(io, 0x44 + n * 2);
        let y2 = (reg & 0xFF) as u32;
        let y1 = ((reg >> 8) & 0xFF) as u32;
        let l = line as u32;
        if y1 <= y2 {
            l >= y1 && l < y2
        } else {
            l >= y1 || l < y2
        }
    }

    /// Whether `x` is inside the span from `x1` to `x2` (see `in_span`).
    fn win_x_in_range(x: u32, x1: u32, x2: u32) -> (r: bool)
        ensures
            r == in_span(x, x1, x2),
    {
        if x1 <= x2 {
            x >= x1 && x < x2
        } else {
            x >= x1 || x < x2
        }
    }

    /// Fills the window mask of `line` (see `window_mask_at`); nothing else changes.
    pub(crate) fn build_window_mask(&mut self, line: usize, io: &[u8; 1024])
        ensures
            forall|x: int| 0 <= x < 240 ==> final(self).win_mask[x] == window_mask_at(*old(self), *io, line, x),
            *final(self) == (PPU { win_mask: final(self).win_mask, ..*old(self) }),
    {
        let dispcnt = read_io16(io, 0);
        let win0_enable = (dispcnt >> 13) & 1 == 1;
        let win1_enable = (dispcnt >> 14) & 1 == 1;
        let objwin_enable = (dispcnt >> 15) & 1 == 1;
        let winin = read_io16(io, 0x48);
        let winout = read_io16(io, 0x4A);
        let win0_in = (winin & 0x3F) as u8;
        let win1_in = ((winin >> 8) & 0x3F) as u8;
        let outside = (winout & 0x3F) as u8;
        let objwin_in = ((winout >> 8) & 0x3F) as u8;
        let in_y0 = Self::win_y_in_range(io, 0, line);
        let in_y1 = Self::win_y_in_range(io, 1, line);
        let (x01, x02) = Self::win_x_range(io, 0);
        let (x11, x12) = Self::win_x_range(io, 1);
        let ghost p0 = *self;
        let mut x: usize = 0;
        while x < 240
            invariant
                x <= 240,
                *self == (PPU { win_mask: self.win_mask, ..p0 }),
                forall|i: int| 0 <= i < x ==> self.win_mask[i] == window_mask_at(p0, *io, line, i),
                dispcnt == io16(*io, 0),
                win0_enable == ((dispcnt >> 13) & 1 == 1),
                win1_enable == ((dispcnt >> 14) & 1 == 1),
                objwin_enable == ((dispcnt >> 15) & 1 == 1),
                win0_in == (io16(*io, 0x48) & 0x3F) as u8,
                win1_in == ((io16(*io, 0x48) >> 8) & 0x3F) as u8,
                outside == (io16(*io, 0x4A) & 0x3F) as u8,
                objwin_in == ((io16(*io, 0x4A) >> 8) & 0x3F) as u8,
                in_y0 == win_y_in_range_spec(*io, 0, line),
                in_y1 == win_y_in_range_spec(*io, 1, line),
                (x01, x02) == win_x_range_spec(*io, 0),
                (x11, x12) == win_x_range_spec(*io, 1),
            decreases 240 - x,
        {
            let m = if !win0_enable && !win1_enable && !objwin_enable {
                0x3F
            } else if win0_enable && in_y0 && Self::win_x_in_range(x as u32, x01, x02) {
                win0_in
            } else if win1_enable && in_y1 && Self::win_x_in_range(x as u32, x11, x12) {
                win1_in
            } else if objwin_enable && self.obj_window[x] {
                objwin_in
            } else {
                outside
            };
            self.win_mask[x] = m;
            x += 1;
        }
    }
}

impl PPU {
    /// Candidate `k` of the layer order at pixel `x` (see `candidate`).
    fn layer_candidate(&self, io: &[u8; 1024], x: usize, k: usize) -> (r: Option<Layer>)
        requires
            x < 240,
            k < 20,
        ensures
            r == candidate(*self, *io, x as int, k as int),
            r is Some ==> (r->0).0 <= 4,
    {
        let level = (k / 5) as u8;
        let j = k % 5;
        let win = self.win_mask[x];
        if j == 0 {
            if (win >> 4) & 1 == 1 && self.obj_priority[x] == level {
                Some((4u8, self.obj_color[x], self.obj_semi[x]))
            } else {
                None
            }
        } else {
            let bg = j - 1;
            let dispcnt = read_io16(io, 0);
            if (dispcnt >> (8 + bg) as u16) & 1 == 1 && ((win & 0xF) >> bg as u8) & 1 == 1 && io[8
                + 2 * bg] & 3 == level && self.bg_opaque[bg * 240 + x] {
                Some((bg as u8, self.bg_color[bg * 240 + x], false))
            } else {
                None
            }
        }
    }

    /// The top and second visible layers at pixel `x` (see `layers_from`).
    fn find_layers(&self, io: &[u8; 1024], x: usize, backdrop: u16) -> (r: (Layer, (u8, u16)))
        requires
            x < 240,
        ensures
            r == layers_from(*self, *io, x as int, 0, None, backdrop),
            r.0.0 <= 5 && r.1.0 <= 5,
    {
        let mut top: Option<Layer> = None;
        let mut k: usize = 0;
        while k < 20
            invariant
                k <= 20,
                x < 240,
                layers_from(*self, *io, x as int, k as nat, top, backdrop) == layers_from(
                    *self,
                    *io,
                    x as int,
                    0,
                    None,
                    backdrop,
                ),
                top is Some ==> (top->0).0 <= 4,
            decreases 20 - k,
        {
            let c = self.layer_candidate(io, x, k);
            match c {
                None => {},
                Some(layer) => {
                    match top {
                        None => {
                            top = Some(layer);
                        },
                        Some(t) => {
                            return (t, (layer.0, layer.1));
                        },
                    }
                },
            }
            k += 1;
        }
        match top {
            Some(t) => (t, (5u8, backdrop)),
            None => ((5u8, backdrop, false), (5u8, backdrop)),
        }
    }

    /// The colour of pixel `x` after colour effects (see `pixel_colour`).
    fn effect_colour(&self, io: &[u8; 1024], palette: &[u8; 1024], x: usize) -> (r: u16)
        requires
            x < 240,
        ensures
            r == pixel_colour(*self, *io, *palette, x as int),
    {
        let bldcnt = read_io16(io, 0x50);
        let bldalpha = read_io16(io, 0x52);
        let bldy = read_io16(io, 0x54);
        let blend_mode = (bldcnt >> 6) & 0b11;
        let first_target = bldcnt & 0x3F;
        let second_target = (bldcnt >> 8) & 0x3F;
        let a = (bldalpha & 0x1F) as u32;
        let eva = if a < 16 { a } else { 16 };
        let b = ((bldalpha >> 8) & 0x1F) as u32;
        let evb = if b < 16 { b } else { 16 };
        let y = (bldy & 0x1F) as u32;
        let evy = if y < 16 { y } else { 16 };
        let backdrop = palette[0] as u16 | ((palette[1] as u16) << 8);
        assert(backdrop == backdrop_of(*palette)) by {
            let lo = palette[0] as u16;
            let hi = palette[1] as u16;
            lemma_bytes_u16(lo, hi);
        }
        let win_fx = (self.win_mask[x] >> 5) & 1 == 1;
        let (top, second) = self.find_layers(io, x, backdrop);
        let top_layer = top.0;
        let top_color = top.1;
        let top_is_semi = top.2;
        let second_layer = second.0;
        let second_color = second.1;
        if top_is_semi && (second_target >> second_layer as u16) & 1 == 1 && win_fx {
            alpha_blend(top_color, second_color, eva, evb)
        } else if win_fx && blend_mode == 1 && (first_target >> top_layer as u16) & 1 == 1 && (
        second_target >> second_layer as u16) & 1 == 1 {
            alpha_blend(top_color, second_color, eva, evb)
        } else if win_fx && blend_mode == 2 && (first_target >> top_layer as u16) & 1 == 1 {
            brighten(top_color, evy)
        } else if win_fx && blend_mode == 3 && (first_target >> top_layer as u16) & 1 == 1 {
            proof {
                lemma_darken_in_range(top_color, evy);
            }
            darken(top_color, evy)
        } else {
            top_color
        }
    }

    /// Composites scanline `line` into the frame (see `line_composited`); the rest
    /// of the frame and every other field stay unchanged.
    pub(crate) fn composite_scanline(&mut self, line: usize, io: &[u8; 1024], palette: &[u8; 1024])
        requires
            line < 160,
        ensures
            line_composited(*old(self), final(self).framebuffer, *io, *palette, line as int),
            forall|i: int|
                0 <= i < 115200 && !(line * 720 <= i < line * 720 + 720) ==> final(self).framebuffer[i]
                    == old(self).framebuffer[i],
            *final(self) == (PPU { framebuffer: final(self).framebuffer, ..*old(self) }),
    {
        let ghost p0 = *self;
        let dispcnt = read_io16(io, 0);
        let blank = (dispcnt >> 7) & 1 == 1;
        let base = line * 240 * 3;
        let mut colours = [0u16; 240];
        if !blank {
            let mut x: usize = 0;
            while x < 240
                invariant
                    x <= 240,
                    *self == p0,
                    forall|i: int| 0 <= i < x ==> colours[i] == pixel_colour(p0, *io, *palette, i),
                decreases 240 - x,
            {
                colours[x] = self.effect_colour(io, palette, x);
                x += 1;
            }
        }
        let mut x: usize = 0;
        while x < 240
            invariant
                x <= 240,
                line < 160,
                base == line * 720,
                blank == ((io16(*io, 0) >> 7) & 1 == 1),
                !blank ==> forall|i: int| 0 <= i < 240 ==> colours[i] == pixel_colour(p0, *io, *palette, i),
                *self == (PPU { framebuffer: self.framebuffer, ..p0 }),
                forall|i: int, k: int|
                    0 <= i < x && 0 <= k < 3 ==> #[trigger] self.framebuffer[line * 720 + i * 3 + k]
                        == if blank {
                        255u8
                    } else {
                        rgb_byte(pixel_colour(p0, *io, *palette, i), k)
                    },
                forall|i: int|
                    0 <= i < 115200 && !(line * 720 <= i < line * 720 + x * 3) ==> self.framebuffer[i]
                        == p0.framebuffer[i],
            decreases 240 - x,
        {
            let fb_idx = base + x * 3;
            if blank {
                self.framebuffer[fb_idx] = 255;
                self.framebuffer[fb_idx + 1] = 255;
                self.framebuffer[fb_idx + 2] = 255;
            } else {
                let final_color = colours[x];
                proof {
                    lemma_rgb_bytes(final_color);
                }
                let r = ((final_color & 0x1F) as u8) << 3;
                let g = (((final_color >> 5) & 0x1F) as u8) << 3;
                let b = (((final_color >> 10) & 0x1F) as u8) << 3;
                self.framebuffer[fb_idx] = r;
                self.framebuffer[fb_idx + 1] = g;
                self.framebuffer[fb_idx + 2] = b;
            }
            proof {
                assert forall|i: int, k: int|
                    0 <= i < x + 1 && 0 <= k < 3 implies #[trigger] self.framebuffer[line * 720 + i * 3
                    + k] == if blank {
                    255u8
                } else {
                    rgb_byte(pixel_colour(p0, *io, *palette, i), k)
                } by {
                    if i < x {
                    } else {
                        assert(line * 720 + i * 3 + k == fb_idx + k);
                    }
                }
            }
            x += 1;
        }
    }
}

proof fn lemma_rgb_bytes(c: u16)
    ensures
        (((c & 0x1F) as u8) << 3u8) == rgb_byte(c, 0),
        ((((c >> 5) & 0x1F) as u8) << 3u8) == rgb_byte(c, 1),
        ((((c >> 10) & 0x1F) as u8) << 3u8) == rgb_byte(c, 2),
{
    assert(((c >> 0u16) & 0x1F) == (c & 0x1F) && (((c & 0x1F) as u8) << 3u8) == ((c & 0x1F) * 8) as u8
        && ((((c >> 5) & 0x1F) as u8) << 3u8) == (((c >> 5) & 0x1F) * 8) as u8 && ((((c >> 10) & 0x1F)
        as u8) << 3u8) == (((c >> 10) & 0x1F) * 8) as u8) by (bit_vector);
}

proof fn lemma_darken_in_range(c: u16, evy: u32)
    requires
        evy <= 16,
    ensures
        channel(c, 0) * evy / 16 <= channel(c, 0),
        channel(c, 1) * evy / 16 <= channel(c, 1),
        channel(c, 2) * evy / 16 <= channel(c, 2),
{
    assert forall|v: u32| v <= 0xFFFF implies #[trigger] (v * evy / 16) <= v by {
        assert(v * evy / 16 <= v) by (nonlinear_arith)
            requires
                evy <= 16,
        ;
    }
    assert(channel(c, 0) <= 0xFFFF && channel(c, 1) <= 0xFFFF && channel(c, 2) <= 0xFFFF);
}

} // verus!
