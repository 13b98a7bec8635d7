//! The background modes: which layers a scanline draws in each DISPCNT mode and
//! how the two bitmap modes read VRAM.
use vstd::prelude::*;
use crate::bits::lemma_bytes_u16;
use crate::bits::{lemma_and_bound16};
use crate::ppu::PPU;
use crate::ppu::background::{
    affine_bg_pixel, affine_fits, bg_row_drawn, palette_colour, text_bg_pixel,
};
use crate::ppu::compositor::{io16, read_io16};

verus! {

broadcast use lemma_and_bound16;

/// Whether DISPCNT enables background `bg`.
pub open spec fn bg_enabled(io: [u8; 1024], bg: int) -> bool {
    (io16(io, 0) >> (8 + bg) as u16) & 1 == 1
}

/// Byte offset of the mode-4 frame being shown: DISPCNT bit 4 selects the second page.
pub open spec fn mode4_page(io: [u8; 1024]) -> int {
    if (io16(io, 0) >> 4) & 1 == 1 { 0xA000 } else { 0 }
}

/// What background `bg` shows at (`x`, `line`) in DISPCNT mode `mode`, or `None`
/// where it leaves its buffer alone (disabled, transparent, or not part of the
/// mode). Mode 0 has four text layers; mode 1 text BG0-BG1 and affine BG2; mode 2
/// affine BG2-BG3; mode 3 a 240x160 direct-colour bitmap on BG2; mode 4 a paletted
/// bitmap on BG2 in which index 0 is transparent. Other modes draw nothing.
pub open spec fn bg_pixel(io: [u8; 1024], vram: [u8; 98304], palette: [u8; 1024], mode: int, bg: int, line: usize, x: int) -> Option<u16> {
    if !bg_enabled(io, bg) {
        None
    } else if mode == 0 || (mode == 1 && bg < 2) {
        text_bg_pixel(io, vram, palette, bg, line as int, x)
    } else if (mode == 1 && bg == 2) || (mode == 2 && bg >= 2) {
        affine_bg_pixel(io, vram, palette, bg, line, x)
    } else if mode == 3 {
        mode3_pixel(io, vram, bg, line, x)
    } else if mode == 4 && bg == 2 {
        let index = vram[mode4_page(io) + line * 240 + x];
        if index == 0 {
            None
        } else {
            Some(palette_colour(palette, index as int))
        }
    } else {
        None
    }
}

/// What layer `bg` shows at (`x`, `line`) in mode 3: BG2, where enabled, shows the
/// 16-bit colour at byte `2 * (240 * line + x)` of VRAM.
pub open spec fn mode3_pixel(io: [u8; 1024], vram: [u8; 98304], bg: int, line: usize, x: int) -> Option<u16> {
    if bg == 2 && bg_enabled(io, 2) {
        let off = (line * 240 + x) * 2;
        Some((vram[off] + vram[off + 1] * 256) as u16)
    } else {
        None
    }
}

/// Whether `q` is `p` with the background buffers repainted by `pix`: pixel `x` of
/// layer `bg` takes `pix(bg, x)` and becomes opaque where that is a colour, and is
/// left alone where it is `None`; nothing else changes.
pub open spec fn rows_drawn(p: PPU, q: PPU, pix: spec_fn(int, int) -> Option<u16>) -> bool {
    &&& q == (PPU { bg_color: q.bg_color, bg_opaque: q.bg_opaque, ..p })
    &&& forall|b: int, x: int|
        0 <= b < 4 && 0 <= x < 240 ==> match #[trigger] pix(b, x) {
            Some(c) => q.bg_color[b * 240 + x] == c && q.bg_opaque[b * 240 + x],
            None => q.bg_color[b * 240 + x] == p.bg_color[b * 240 + x] && q.bg_opaque[b * 240 + x]
                == p.bg_opaque[b * 240 + x],
        }
}

/// Drawing one more row on top of `before` gives `after`, when `before` left that
/// row alone.
proof fn lemma_row_added(
    p0: PPU,
    p1: PPU,
    p2: PPU,
    b: int,
    row: spec_fn(int) -> Option<u16>,
    before: spec_fn(int, int) -> Option<u16>,
    after: spec_fn(int, int) -> Option<u16>,
)
    requires
        0 <= b < 4,
        rows_drawn(p0, p1, before),
        bg_row_drawn(p1, p2, b, row),
        forall|x: int| 0 <= x < 240 ==> #[trigger] before(b, x) is None,
        forall|c: int, x: int|
            0 <= c < 4 && 0 <= x < 240 ==> #[trigger] after(c, x) == if c == b {
                row(x)
            } else {
                before(c, x)
            },
    ensures
        rows_drawn(p0, p2, after),
{
    assert forall|c: int, x: int| 0 <= c < 4 && 0 <= x < 240 implies match #[trigger] after(c, x) {
        Some(v) => p2.bg_color[c * 240 + x] == v && p2.bg_opaque[c * 240 + x],
        None => p2.bg_color[c * 240 + x] == p0.bg_color[c * 240 + x] && p2.bg_opaque[c * 240 + x]
            == p0.bg_opaque[c * 240 + x],
    } by {
        let _ = before(c, x);
        let _ = row(x);
        if c == b {
            let _ = before(b, x);
        } else {
            assert(!(b * 240 <= c * 240 + x < b * 240 + 240));
        }
    }
}

/// Leaving a row alone keeps what was drawn.
proof fn lemma_row_skipped(
    p0: PPU,
    p1: PPU,
    before: spec_fn(int, int) -> Option<u16>,
    after: spec_fn(int, int) -> Option<u16>,
)
    requires
        rows_drawn(p0, p1, before),
        forall|c: int, x: int| 0 <= c < 4 && 0 <= x < 240 ==> #[trigger] after(c, x) == before(c, x),
    ensures
        rows_drawn(p0, p1, after),
{
    assert forall|c: int, x: int| 0 <= c < 4 && 0 <= x < 240 implies match #[trigger] after(c, x) {
        Some(v) => p1.bg_color[c * 240 + x] == v && p1.bg_opaque[c * 240 + x],
        None => p1.bg_color[c * 240 + x] == p0.bg_color[c * 240 + x] && p1.bg_opaque[c * 240 + x]
            == p0.bg_opaque[c * 240 + x],
    } by {
        let _ = before(c, x);
    }
}

impl PPU {
    /// Mode 0: draws each enabled text background (see `bg_pixel`).
    pub fn render_mode0(&mut self, line: usize, vram: &[u8; 98304], io: &[u8; 1024], palette: &[u8; 1024])
        requires
            line + 512 <= usize::MAX,
        ensures
            rows_drawn(*old(self), *final(self), |b: int, x: int| bg_pixel(*io, *vram, *palette, 0, b, line, x)),
    {
        let ghost p0 = *self;
        let dispcnt = read_io16(io, 0);
        let mut bg_num: usize = 0;
        while bg_num < 4
            invariant
                bg_num <= 4,
                line + 512 <= usize::MAX,
                dispcnt == io16(*io, 0),
                rows_drawn(
                    p0,
                    *self,
                    |b: int, x: int|
                        if b < bg_num {
                            bg_pixel(*io, *vram, *palette, 0, b, line, x)
                        } else {
                            None
                        },
                ),
            decreases 4 - bg_num,
        {
            let ghost before = |b: int, x: int|
                if b < bg_num {
                    bg_pixel(*io, *vram, *palette, 0, b, line, x)
                } else {
                    None
                };
            let ghost after = |b: int, x: int|
                if b < bg_num + 1 {
                    bg_pixel(*io, *vram, *palette, 0, b, line, x)
                } else {
                    None
                };
            let ghost p1 = *self;
            if (dispcnt >> (8 + bg_num) as u16) & 1 == 1 {
                self.render_bg_text(bg_num, line, vram, io, palette);
                proof {
                    lemma_row_added(
                        p0,
                        p1,
                        *self,
                        bg_num as int,
                        |x: int| text_bg_pixel(*io, *vram, *palette, bg_num as int, line as int, x),
                        before,
                        after,
                    );
                }
            } else {
                proof {
                    lemma_row_skipped(p0, p1, before, after);
                }
            }
            bg_num += 1;
        }
        proof {
            lemma_row_skipped(
                p0,
                *self,
                |b: int, x: int|
                    if b < 4 {
                        bg_pixel(*io, *vram, *palette, 0, b, line, x)
                    } else {
                        None
                    },
                |b: int, x: int| bg_pixel(*io, *vram, *palette, 0, b, line, x),
            );
        }
    }
}

impl PPU {
    /// Mode 1: draws text BG0 and BG1 and affine BG2 where enabled (see
    /// `bg_pixel`); the affine arithmetic of BG2 must stay within 32 bits.
    pub fn render_mode1(&mut self, line: usize, vram: &[u8; 98304], io: &[u8; 1024], palette: &[u8; 1024])
        requires
            line + 512 <= usize::MAX,
            bg_enabled(*io, 2) ==> affine_fits(*io, 2, line),
        ensures
            rows_drawn(*old(self), *final(self), |b: int, x: int| bg_pixel(*io, *vram, *palette, 1, b, line, x)),
    {
        let ghost p0 = *self;
        let dispcnt = read_io16(io, 0);
        let mut bg_num: usize = 0;
        while bg_num < 2
            invariant
                bg_num <= 2,
                line + 512 <= usize::MAX,
                dispcnt == io16(*io, 0),
                rows_drawn(
                    p0,
                    *self,
                    |b: int, x: int|
                        if b < bg_num {
                            bg_pixel(*io, *vram, *palette, 1, b, line, x)
                        } else {
                            None
                        },
                ),
            decreases 2 - bg_num,
        {
            let ghost before = |b: int, x: int|
                if b < bg_num {
                    bg_pixel(*io, *vram, *palette, 1, b, line, x)
                } else {
                    None
                };
            let ghost after = |b: int, x: int|
                if b < bg_num + 1 {
                    bg_pixel(*io, *vram, *palette, 1, b, line, x)
                } else {
                    None
                };
            let ghost p1 = *self;
            if (dispcnt >> (8 + bg_num) as u16) & 1 == 1 {
                self.render_bg_text(bg_num, line, vram, io, palette);
                proof {
                    lemma_row_added(
                        p0,
                        p1,
                        *self,
                        bg_num as int,
                        |x: int| text_bg_pixel(*io, *vram, *palette, bg_num as int, line as int, x),
                        before,
                        after,
                    );
                }
            } else {
                proof {
                    lemma_row_skipped(p0, p1, before, after);
                }
            }
            bg_num += 1;
        }
        let ghost before = |b: int, x: int|
            if b < 2 {
                bg_pixel(*io, *vram, *palette, 1, b, line, x)
            } else {
                None
            };
        let ghost after = |b: int, x: int| bg_pixel(*io, *vram, *palette, 1, b, line, x);
        let ghost p1 = *self;
        if (dispcnt >> 10u16) & 1 == 1 {
            self.render_bg_affine(2, line, vram, io, palette);
            proof {
                lemma_row_added(
                    p0,
                    p1,
                    *self,
                    2,
                    |x: int| affine_bg_pixel(*io, *vram, *palette, 2, line, x),
                    before,
                    after,
                );
            }
        } else {
            proof {
                lemma_row_skipped(p0, p1, before, after);
            }
        }
    }

    /// Mode 2: draws affine BG2 and BG3 where enabled (see `bg_pixel`); their
    /// affine arithmetic must stay within 32 bits.
    pub fn render_mode2(&mut self, line: usize, vram: &[u8; 98304], io: &[u8; 1024], palette: &[u8; 1024])
        requires
            bg_enabled(*io, 2) ==> affine_fits(*io, 2, line),
            bg_enabled(*io, 3) ==> affine_fits(*io, 3, line),
        ensures
            rows_drawn(*old(self), *final(self), |b: int, x: int| bg_pixel(*io, *vram, *palette, 2, b, line, x)),
    {
        let ghost p0 = *self;
        let dispcnt = read_io16(io, 0);
        let mut bg_num: usize = 2;
        proof {
            lemma_row_skipped(
                p0,
                p0,
                |b: int, x: int| None,
                |b: int, x: int|
                    if 2 <= b < 2 {
                        bg_pixel(*io, *vram, *palette, 2, b, line, x)
                    } else {
                        None
                    },
            );
        }
        while bg_num < 4
            invariant
                2 <= bg_num <= 4,
                bg_enabled(*io, 2) ==> affine_fits(*io, 2, line),
                bg_enabled(*io, 3) ==> affine_fits(*io, 3, line),
                dispcnt == io16(*io, 0),
                rows_drawn(
                    p0,
                    *self,
                    |b: int, x: int|
                        if 2 <= b < bg_num {
                            bg_pixel(*io, *vram, *palette, 2, b, line, x)
                        } else {
                            None
                        },
                ),
            decreases 4 - bg_num,
        {
            let ghost before = |b: int, x: int|
                if 2 <= b < bg_num {
                    bg_pixel(*io, *vram, *palette, 2, b, line, x)
                } else {
                    None
                };
            let ghost after = |b: int, x: int|
                if 2 <= b < bg_num + 1 {
                    bg_pixel(*io, *vram, *palette, 2, b, line, x)
                } else {
                    None
                };
            let ghost p1 = *self;
            if (dispcnt >> (8 + bg_num) as u16) & 1 == 1 {
                self.render_bg_affine(bg_num, line, vram, io, palette);
                proof {
                    lemma_row_added(
                        p0,
                        p1,
                        *self,
                        bg_num as int,
                        |x: int| affine_bg_pixel(*io, *vram, *palette, bg_num as int, line, x),
                        before,
                        after,
                    );
                }
            } else {
                proof {
                    lemma_row_skipped(p0, p1, before, after);
                }
            }
            bg_num += 1;
        }
        proof {
            lemma_row_skipped(
                p0,
                *self,
                |b: int, x: int|
                    if 2 <= b < 4 {
                        bg_pixel(*io, *vram, *palette, 2, b, line, x)
                    } else {
                        None
                    },
                |b: int, x: int| bg_pixel(*io, *vram, *palette, 2, b, line, x),
            );
        }
    }

    /// Mode 3: when BG2 is enabled, copies scanline `line` of the 16-bit bitmap
    /// into BG2, every pixel opaque (see `bg_pixel`); the line must lie in VRAM.
    pub fn render_mode3(&mut self, line: usize, vram: &[u8; 98304], io: &[u8; 1024])
        requires
            bg_enabled(*io, 2) ==> (line * 240 + 239) * 2 + 1 < 98304,
        ensures
            rows_drawn(*old(self), *final(self), |b: int, x: int| mode3_pixel(*io, *vram, b, line, x)),
    {
        let ghost p0 = *self;
        let dispcnt = read_io16(io, 0);
        if (dispcnt >> 10u16) & 1 == 0 {
            proof {
                lemma_row_skipped(
                    p0,
                    p0,
                    |b: int, x: int| None,
                    |b: int, x: int| mode3_pixel(*io, *vram, b, line, x),
                );
            }
            return;
        }
        let ghost row = |i: int| Some((vram[(line * 240 + i) * 2] + vram[(line * 240 + i) * 2 + 1] * 256) as u16);
        let mut x: usize = 0;
        while x < 240
            invariant
                x <= 240,
                (line * 240 + 239) * 2 + 1 < 98304,
                row == (|i: int| Some((vram[(line * 240 + i) * 2] + vram[(line * 240 + i) * 2 + 1] * 256) as u16)),
                *self == (PPU { bg_color: self.bg_color, bg_opaque: self.bg_opaque, ..p0 }),
                forall|i: int|
                    0 <= i < x ==> match #[trigger] row(i) {
                        Some(c) => self.bg_color[480 + i] == c && self.bg_opaque[480 + i],
                        None => true,
                    },
                forall|i: int|
                    0 <= i < 960 && !(480 <= i < 480 + x) ==> self.bg_color[i] == p0.bg_color[i]
                        && self.bg_opaque[i] == p0.bg_opaque[i],
            decreases 240 - x,
        {
            let off = (line * 240 + x) * 2;
            let lo = vram[off] as u16;
            let hi = vram[off + 1] as u16;
            proof {
                lemma_bytes_u16(lo, hi);
            }
            self.bg_color[480 + x] = lo | (hi << 8);
            self.bg_opaque[480 + x] = true;
            assert(row(x as int) == Some(lo | (hi << 8)));
            x += 1;
        }
        proof {
            lemma_row_skipped(p0, p0, |b: int, x: int| None, |b: int, x: int| None);
            lemma_row_added(
                p0,
                p0,
                *self,
                2,
                row,
                |b: int, x: int| None,
                |b: int, x: int| mode3_pixel(*io, *vram, b, line, x),
            );
        }
    }

    /// Mode 4: when BG2 is enabled, draws scanline `line` of the paletted bitmap
    /// on the page that DISPCNT bit 4 selects; index 0 is transparent (see
    /// `bg_pixel`). The line must lie in VRAM.
    pub fn render_mode4(&mut self, line: usize, vram: &[u8; 98304], palette: &[u8; 1024], io: &[u8; 1024])
        requires
            bg_enabled(*io, 2) ==> mode4_page(*io) + line * 240 + 239 < 98304,
        ensures
            rows_drawn(*old(self), *final(self), |b: int, x: int| bg_pixel(*io, *vram, *palette, 4, b, line, x)),
    {
        let ghost p0 = *self;
        let dispcnt = read_io16(io, 0);
        if (dispcnt >> 10u16) & 1 == 0 {
            proof {
                lemma_row_skipped(
                    p0,
                    p0,
                    |b: int, x: int| None,
                    |b: int, x: int| bg_pixel(*io, *vram, *palette, 4, b, line, x),
                );
            }
            return;
        }
        let page_base: usize = if (dispcnt >> 4u16) & 1 == 1 {
            0xA000
        } else {
            0
        };
        let ghost row = |i: int| {
            let index = vram[mode4_page(*io) + line * 240 + i];
            if index == 0 {
                None
            } else {
                Some(palette_colour(*palette, index as int))
            }
        };
        let mut x: usize = 0;
        while x < 240
            invariant
                x <= 240,
                page_base == mode4_page(*io),
                page_base + line * 240 + 239 < 98304,
                row == (|i: int| {
                    let index = vram[mode4_page(*io) + line * 240 + i];
                    if index == 0 {
                        None
                    } else {
                        Some(palette_colour(*palette, index as int))
                    }
                }),
                *self == (PPU { bg_color: self.bg_color, bg_opaque: self.bg_opaque, ..p0 }),
                forall|i: int|
                    0 <= i < x ==> match #[trigger] row(i) {
                        Some(c) => self.bg_color[480 + i] == c && self.bg_opaque[480 + i],
                        None => self.bg_color[480 + i] == p0.bg_color[480 + i] && self.bg_opaque[480 + i]
                            == p0.bg_opaque[480 + i],
                    },
                forall|i: int|
                    0 <= i < 960 && !(480 <= i < 480 + x) ==> self.bg_color[i] == p0.bg_color[i]
                        && self.bg_opaque[i] == p0.bg_opaque[i],
            decreases 240 - x,
        {
            let index = vram[page_base + line * 240 + x] as usize;
            if index != 0 {
                let plo = palette[index * 2] as u16;
                let phi = palette[index * 2 + 1] as u16;
                proof {
                    lemma_bytes_u16(plo, phi);
                }
                self.bg_color[480 + x] = plo | (phi << 8);
                self.bg_opaque[480 + x] = true;
            }
            assert(row(x as int) == (if index == 0 { None } else { Some(palette_colour(*palette, index as int)) }));
            x += 1;
        }
        proof {
            lemma_row_skipped(p0, p0, |b: int, x: int| None, |b: int, x: int| None);
            lemma_row_added(
                p0,
                p0,
                *self,
                2,
                row,
                |b: int, x: int| None,
                |b: int, x: int| bg_pixel(*io, *vram, *palette, 4, b, line, x),
            );
        }
    }
}

} // verus!
