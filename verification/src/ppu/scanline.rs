//! Rendering one visible scanline: clear the layer buffers, draw the backgrounds
//! of the current mode and the sprites, build the window mask and composite.
use vstd::prelude::*;
use crate::memory_bus::MemoryBus;
use crate::ppu::PPU;
use crate::ppu::background::lemma_affine_fits_on_screen;
use crate::ppu::compositor::{io16, line_composited, read_io16, window_mask_at};
use crate::ppu::modes::{bg_pixel, mode3_pixel, rows_drawn};
use crate::ppu::sprites::{obj_layer, obj_px, sprites_drawn, sprites_fit};

verus! {

/// Whether `q` is `p` with the per-scanline buffers reset: every background pixel
/// transparent, no sprite (priority 4), no semi-transparency, no OBJ window, and
/// every layer enabled in the window mask. Colours are kept; nothing else changes.
pub open spec fn buffers_cleared(p: PPU, q: PPU) -> bool {
    &&& q == (PPU {
        bg_opaque: q.bg_opaque,
        obj_priority: q.obj_priority,
        obj_semi: q.obj_semi,
        obj_window: q.obj_window,
        win_mask: q.win_mask,
        ..p
    })
    &&& forall|i: int| 0 <= i < 960 ==> !q.bg_opaque[i]
    &&& forall|x: int|
        0 <= x < 240 ==> q.obj_priority[x] == 4 && !q.obj_semi[x] && !q.obj_window[x] && q.win_mask[x]
            == 0x3F
}

/// Whether `q` is `p` with the window mask of `line` built (see `window_mask_at`).
pub open spec fn window_built(p: PPU, q: PPU, io: [u8; 1024], line: usize) -> bool {
    &&& forall|x: int| 0 <= x < 240 ==> q.win_mask[x] == window_mask_at(p, io, line, x)
    &&& q == (PPU { win_mask: q.win_mask, ..p })
}

/// Whether `q` is `p` with scanline `line` composited into the frame (see
/// `line_composited`), the rest of the frame and every other field unchanged.
pub open spec fn composited(p: PPU, q: PPU, io: [u8; 1024], palette: [u8; 1024], line: usize) -> bool {
    &&& line_composited(p, q.framebuffer, io, palette, line as int)
    &&& forall|i: int|
        0 <= i < 115200 && !(line * 720 <= i < line * 720 + 720) ==> q.framebuffer[i] == p.framebuffer[i]
    &&& q == (PPU { framebuffer: q.framebuffer, ..p })
}

/// The layers that mode `mode` draws on `line` (see `bg_pixel`; mode 3 reads no
/// palette).
pub open spec fn mode_pixel(b: MemoryBus, mode: int, line: usize) -> spec_fn(int, int) -> Option<u16> {
    if mode == 3 {
        |bg: int, x: int| mode3_pixel(b.io, b.vram, bg, line, x)
    } else {
        |bg: int, x: int| bg_pixel(b.io, b.vram, b.palette, mode, bg, line, x)
    }
}

/// Whether `q` is `p` after rendering scanline `p.vcount` from the bus: the buffers
/// are cleared, the backgrounds of mode `dispcnt & 7` and the sprites drawn, the
/// window mask built and the line composited into the frame. Each step fixes its
/// result, so `q` is determined by `p` and the bus.
pub open spec fn line_rendered(p: PPU, q: PPU, b: MemoryBus, dispcnt: u16) -> bool {
    let line = p.vcount as usize;
    exists|p1: PPU, p2: PPU, p3: PPU, p4: PPU|
        {
            &&& buffers_cleared(p, p1)
            &&& rows_drawn(p1, p2, mode_pixel(b, (dispcnt & 7) as int, line))
            &&& sprites_drawn(p2, p3, b.oam, b.vram, b.palette, dispcnt, io16(b.io, 0x4C), line)
            &&& window_built(p3, p4, b.io, line)
            &&& composited(p4, q, b.io, b.palette, line)
        }
}

proof fn lemma_cleared_unique(p: PPU, a: PPU, b: PPU)
    requires
        buffers_cleared(p, a),
        buffers_cleared(p, b),
    ensures
        a == b,
{
    assert(a.bg_opaque =~= b.bg_opaque);
    assert(a.obj_priority =~= b.obj_priority);
    assert(a.obj_semi =~= b.obj_semi);
    assert(a.obj_window =~= b.obj_window);
    assert(a.win_mask =~= b.win_mask);
}

proof fn lemma_rows_unique(p: PPU, a: PPU, b: PPU, pix: spec_fn(int, int) -> Option<u16>)
    requires
        rows_drawn(p, a, pix),
        rows_drawn(p, b, pix),
    ensures
        a == b,
{
    assert forall|i: int| 0 <= i < 960 implies a.bg_color[i] == b.bg_color[i] && a.bg_opaque[i] == b.bg_opaque[i] by {
        let bg = i / 240;
        let x = i % 240;
        assert(i == bg * 240 + x);
        let _ = pix(bg, x);
    }
    assert(a.bg_color =~= b.bg_color);
    assert(a.bg_opaque =~= b.bg_opaque);
}

proof fn lemma_sprites_unique(p: PPU, a: PPU, b: PPU, oam: [u8; 1024], vram: [u8; 98304], palette: [u8; 1024], dispcnt: u16, mosaic: u16, line: usize)
    requires
        sprites_drawn(p, a, oam, vram, palette, dispcnt, mosaic, line),
        sprites_drawn(p, b, oam, vram, palette, dispcnt, mosaic, line),
    ensures
        a == b,
{
    assert forall|x: int| 0 <= x < 240 implies a.obj_color[x] == b.obj_color[x] && a.obj_priority[x]
        == b.obj_priority[x] && a.obj_semi[x] == b.obj_semi[x] && a.obj_window[x] == b.obj_window[x] by {
        let _ = obj_layer(p, oam, vram, palette, dispcnt, mosaic, line, 128, x);
        assert(obj_px(a, x) == obj_px(b, x));
    }
    assert(a.obj_color =~= b.obj_color);
    assert(a.obj_priority =~= b.obj_priority);
    assert(a.obj_semi =~= b.obj_semi);
    assert(a.obj_window =~= b.obj_window);
}

proof fn lemma_composited_unique(p: PPU, a: PPU, b: PPU, io: [u8; 1024], palette: [u8; 1024], line: usize)
    requires
        line < 160,
        composited(p, a, io, palette, line),
        composited(p, b, io, palette, line),
    ensures
        a == b,
{
    assert forall|i: int| 0 <= i < 115200 implies a.framebuffer[i] == b.framebuffer[i] by {
        if line * 720 <= i < line * 720 + 720 {
            let x = (i - line * 720) / 3;
            let k = (i - line * 720) % 3;
            assert(i == line * 720 + x * 3 + k);
            assert(a.framebuffer[line * 720 + x * 3 + k] == b.framebuffer[line * 720 + x * 3 + k]);
        }
    }
    assert(a.framebuffer =~= b.framebuffer);
}

/// Rendering a scanline is deterministic: the renderer state and the bus fix the
/// result of `line_rendered`, frame and buffers alike.
pub proof fn lemma_line_rendered_unique(p: PPU, q1: PPU, q2: PPU, b: MemoryBus, dispcnt: u16)
    requires
        p.vcount < 160,
        line_rendered(p, q1, b, dispcnt),
        line_rendered(p, q2, b, dispcnt),
    ensures
        q1 == q2,
{
    let line = p.vcount as usize;
    let (a1, a2, a3, a4) = choose|p1: PPU, p2: PPU, p3: PPU, p4: PPU|
        {
            &&& buffers_cleared(p, p1)
            &&& rows_drawn(p1, p2, mode_pixel(b, (dispcnt & 7) as int, line))
            &&& sprites_drawn(p2, p3, b.oam, b.vram, b.palette, dispcnt, io16(b.io, 0x4C), line)
            &&& window_built(p3, p4, b.io, line)
            &&& composited(p4, q1, b.io, b.palette, line)
        };
    let (c1, c2, c3, c4) = choose|p1: PPU, p2: PPU, p3: PPU, p4: PPU|
        {
            &&& buffers_cleared(p, p1)
            &&& rows_drawn(p1, p2, mode_pixel(b, (dispcnt & 7) as int, line))
            &&& sprites_drawn(p2, p3, b.oam, b.vram, b.palette, dispcnt, io16(b.io, 0x4C), line)
            &&& window_built(p3, p4, b.io, line)
            &&& composited(p4, q2, b.io, b.palette, line)
        };
    lemma_cleared_unique(p, a1, c1);
    lemma_rows_unique(a1, a2, c2, mode_pixel(b, (dispcnt & 7) as int, line));
    lemma_sprites_unique(a2, a3, c3, b.oam, b.vram, b.palette, dispcnt, io16(b.io, 0x4C), line);
    assert(a4.win_mask =~= c4.win_mask);
    lemma_composited_unique(a4, q1, q2, b.io, b.palette, line);
}

impl PPU {
    /// Resets the per-scanline buffers (see `buffers_cleared`).
    fn clear_line_buffers(&mut self)
        ensures
            buffers_cleared(*old(self), *final(self)),
    {
        let ghost p0 = *self;
        let mut i: usize = 0;
        while i < 960
            invariant
                i <= 960,
                *self == (PPU { bg_opaque: self.bg_opaque, ..p0 }),
                forall|j: int| 0 <= j < i ==> !self.bg_opaque[j],
            decreases 960 - i,
        {
            self.bg_opaque[i] = false;
            i += 1;
        }
        let mut x: usize = 0;
        while x < 240
            invariant
                x <= 240,
                *self == (PPU {
                    bg_opaque: self.bg_opaque,
                    obj_priority: self.obj_priority,
                    obj_semi: self.obj_semi,
                    obj_window: self.obj_window,
                    win_mask: self.win_mask,
                    ..p0
                }),
                forall|j: int| 0 <= j < 960 ==> !self.bg_opaque[j],
                forall|j: int|
                    0 <= j < x ==> self.obj_priority[j] == 4 && !self.obj_semi[j] && !self.obj_window[j]
                        && self.win_mask[j] == 0x3F,
            decreases 240 - x,
        {
            self.obj_priority[x] = 4;
            self.obj_semi[x] = false;
            self.obj_window[x] = false;
            self.win_mask[x] = 0x3F;
            x += 1;
        }
    }

    /// Renders scanline `vcount` (see `line_rendered`), which must be visible; the
    /// sprites of the line must sample VRAM only. The bus is only read.
    pub fn render_current_line(&mut self, bus: &mut MemoryBus, dispcnt: u16)
        requires
            old(self).vcount < 160,
            sprites_fit(old(bus).oam, dispcnt, io16(old(bus).io, 0x4C), old(self).vcount as usize),
        ensures
            line_rendered(*old(self), *final(self), *old(bus), dispcnt),
            *final(bus) == *old(bus),
    {
        let ghost p = *self;
        let line = self.vcount as usize;
        self.clear_line_buffers();
        let ghost p1 = *self;
        let mode = dispcnt & 0b111;
        proof {
            lemma_affine_fits_on_screen(bus.io, 2, line);
            lemma_affine_fits_on_screen(bus.io, 3, line);
        }
        if mode == 0 {
            self.render_mode0(line, &bus.vram, &bus.io, &bus.palette);
        } else if mode == 1 {
            self.render_mode1(line, &bus.vram, &bus.io, &bus.palette);
        } else if mode == 2 {
            self.render_mode2(line, &bus.vram, &bus.io, &bus.palette);
        } else if mode == 3 {
            self.render_mode3(line, &bus.vram, &bus.io);
        } else if mode == 4 {
            self.render_mode4(line, &bus.vram, &bus.palette, &bus.io);
        } else {
            proof {
                assert(rows_drawn(p1, p1, mode_pixel(*bus, mode as int, line)));
            }
        }
        let ghost p2 = *self;
        let mosaic = read_io16(&bus.io, 0x4C);
        self.render_sprites(&bus.oam, &bus.palette, &bus.vram, dispcnt, mosaic, line);
        let ghost p3 = *self;
        self.build_window_mask(line, &bus.io);
        let ghost p4 = *self;
        self.composite_scanline(line, &bus.io, &bus.palette);
        assert(buffers_cleared(p, p1) && rows_drawn(p1, p2, mode_pixel(*bus, mode as int, line))
            && sprites_drawn(p2, p3, bus.oam, bus.vram, bus.palette, dispcnt, io16(bus.io, 0x4C), line)
            && window_built(p3, p4, bus.io, line) && composited(p4, *self, bus.io, bus.palette, line));
    }
}

} // verus!
