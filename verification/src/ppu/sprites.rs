//! Sprites (OBJ): decoding OAM entries, sampling their tiles, and drawing them
//! into the OBJ line buffer with priorities and the OBJ window.
use vstd::prelude::*;
use crate::bits::lemma_nibbles;
use crate::bits::lemma_bytes_u16;
use crate::bits::lemma_and_bound16;
use crate::ppu::PPU;
use crate::ppu::background::{lemma_floor256, line_i32, palette_colour};
use crate::ppu::compositor::{io16, read_io16};

verus! {

broadcast use lemma_and_bound16;

/// A decoded OAM entry of a sprite that can appear: its screen position (top-left
/// of the bounding box, already wrapped to signed values), size in pixels, the
/// bounding box (doubled for double-size affine sprites), tiles and palette, and
/// the affine matrix (all zero for a plain sprite).
pub struct ObjAttrs {
    pub affine: bool,
    pub is_objwin: bool,
    pub is_semi: bool,
    pub mosaic: bool,
    pub y: i32,
    pub x: i32,
    pub colour_mode: u16,
    pub width: usize,
    pub height: usize,
    pub box_w: usize,
    pub box_h: usize,
    pub tile_number: usize,
    pub priority: u8,
    pub palette_num: usize,
    pub h_flip: bool,
    pub v_flip: bool,
    pub pa: i32,
    pub pb: i32,
    pub pc: i32,
    pub pd: i32,
}

/// Width and height in pixels of a sprite of `shape` (0 square, 1 wide, 2 tall)
/// and `size` (0-3).
pub open spec fn obj_dims(shape: u16, size: u16) -> (usize, usize) {
    if shape == 0 {
        if size == 0 { (8, 8) } else if size == 1 { (16, 16) } else if size == 2 { (32, 32) } else { (64, 64) }
    } else if shape == 1 {
        if size == 0 { (16, 8) } else if size == 1 { (32, 8) } else if size == 2 { (32, 16) } else { (64, 32) }
    } else {
        if size == 0 { (8, 16) } else if size == 1 { (8, 32) } else if size == 2 { (16, 32) } else { (32, 64) }
    }
}

/// Component `k` (PA, PB, PC, PD) of OBJ affine matrix `n`: a signed 8.8 value in
/// the gap of every fourth OAM entry, at byte `32n + 6 + 8k`.
pub open spec fn obj_param(oam: [u8; 1024], n: int, k: int) -> i32 {
    (io16(oam, n * 32 + 6 + k * 8) as i16) as i32
}

/// OAM entry `i` decoded, or `None` for a sprite that never shows: one disabled
/// (attr0 bits 9-8 = 10), in the prohibited graphics mode (attr0 bits 11-10 = 11)
/// or of the prohibited shape (attr0 bits 15-14 = 11). attr0 gives Y (bits 7-0,
/// 160 and above wrap to negative), affine and double size (bits 8-9), the mode
/// (semi-transparent 01, OBJ window 10), mosaic (bit 12) and 8bpp (bit 13); attr1
/// gives X (bits 8-0, above 255 wraps to negative), the matrix number (bits 13-9)
/// or the flips (bits 12-13) and the size (bits 15-14); attr2 the tile (bits 9-0),
/// priority (bits 11-10) and 4bpp palette (bits 15-12).
pub open spec fn obj_attrs(oam: [u8; 1024], i: int) -> Option<ObjAttrs> {
    let attr0 = io16(oam, i * 8);
    let attr1 = io16(oam, i * 8 + 2);
    let attr2 = io16(oam, i * 8 + 4);
    let rs = (attr0 >> 8) & 3;
    let gfx = (attr0 >> 10) & 3;
    let shape = (attr0 >> 14) & 3;
    if rs == 2 || gfx == 3 || shape == 3 {
        None
    } else {
        let affine = rs & 1 != 0;
        let (w, h) = obj_dims(shape, (attr1 >> 14) & 3);
        let n = ((attr1 >> 9) & 0x1F) as int;
        let y0 = attr0 & 0xFF;
        let x0 = attr1 & 0x1FF;
        Some(ObjAttrs {
            affine,
            is_objwin: gfx == 2,
            is_semi: gfx == 1,
            mosaic: (attr0 >> 12) & 1 == 1,
            y: if y0 >= 160 { (y0 - 256) as i32 } else { y0 as i32 },
            x: if x0 > 255 { (x0 - 512) as i32 } else { x0 as i32 },
            colour_mode: (attr0 >> 13) & 1,
            width: w,
            height: h,
            box_w: if rs == 3 { (w * 2) as usize } else { w },
            box_h: if rs == 3 { (h * 2) as usize } else { h },
            tile_number: (attr2 & 0x3FF) as usize,
            priority: ((attr2 >> 10) & 3) as u8,
            palette_num: ((attr2 >> 12) & 0xF) as usize,
            h_flip: !affine && (attr1 >> 12) & 1 == 1,
            v_flip: !affine && (attr1 >> 13) & 1 == 1,
            pa: if affine { obj_param(oam, n, 0) } else { 0 },
            pb: if affine { obj_param(oam, n, 1) } else { 0 },
            pc: if affine { obj_param(oam, n, 2) } else { 0 },
            pd: if affine { obj_param(oam, n, 3) } else { 0 },
        })
    }
}

/// The ranges that a decoded entry's fields keep.
pub open spec fn obj_wf(a: ObjAttrs) -> bool {
    &&& (a.width == 8 || a.width == 16 || a.width == 32 || a.width == 64)
    &&& (a.height == 8 || a.height == 16 || a.height == 32 || a.height == 64)
    &&& (a.box_w == a.width || (a.affine && a.box_w == 2 * a.width))
    &&& (a.box_h == a.height || (a.affine && a.box_h == 2 * a.height))
    &&& -96 <= a.y <= 159
    &&& -256 <= a.x <= 255
    &&& a.colour_mode <= 1
    &&& a.tile_number < 1024
    &&& a.priority < 4
    &&& a.palette_num < 16
    &&& -0x8000 <= a.pa < 0x8000
    &&& -0x8000 <= a.pb < 0x8000
    &&& -0x8000 <= a.pc < 0x8000
    &&& -0x8000 <= a.pd < 0x8000
}

/// The texel (x, y) of the sprite's image that box pixel (`bx`, `by`) shows, or
/// `None` when an affine sprite samples outside its image. With mosaic the box
/// coordinates first snap to the `mh` x `mv` grid. An affine sprite maps the offset
/// from the box centre through its matrix (dropping the 8-bit fraction) to an offset
/// from the image centre; a plain sprite reads the pixel directly, mirrored by the
/// flips.
pub open spec fn obj_sample_at(a: ObjAttrs, mh: int, mv: int, bx: int, by: int) -> Option<(int, int)> {
    let sx = if a.mosaic { bx - bx % mh } else { bx };
    let sy = if a.mosaic { by - by % mv } else { by };
    if a.affine {
        let ox = sx - a.box_w / 2;
        let oy = sy - a.box_h / 2;
        let tx = (a.pa * ox + a.pb * oy) / 256 + a.width / 2;
        let ty = (a.pc * ox + a.pd * oy) / 256 + a.height / 2;
        if tx < 0 || tx >= a.width || ty < 0 || ty >= a.height {
            None
        } else {
            Some((tx, ty))
        }
    } else {
        Some(
            (
                if a.h_flip { a.width - 1 - sx } else { sx },
                if a.v_flip { a.height - 1 - sy } else { sy },
            ),
        )
    }
}

/// The texel that the sprite shows at screen pixel (`x`, `line`), or `None` when
/// its bounding box does not cover the pixel or it samples outside its image.
pub open spec fn obj_sample(a: ObjAttrs, mh: int, mv: int, line: usize, x: int) -> Option<(int, int)> {
    let l = line_i32(line);
    if l < a.y || l >= a.y + a.box_h || x < a.x || x >= a.x + a.box_w {
        None
    } else {
        obj_sample_at(a, mh, mv, x - a.x, l - a.y)
    }
}

/// The VRAM byte that holds texel (`tx`, `ty`) of a sprite. Tile numbers count
/// 32-byte units from 0x10000; an 8x8 tile takes 32 bytes at 4bpp and 64 at 8bpp.
/// With 1D mapping the tiles of a row follow each other; with 2D mapping rows of
/// the tile sheet are 32 units apart.
pub open spec fn obj_texel_addr(tx: int, ty: int, tiles_wide: int, colour_mode: u16, mapping_1d: bool, tile_number: int) -> int {
    let tile_size: int = if colour_mode == 1 { 64 } else { 32 };
    let stride: int = if mapping_1d { tiles_wide } else if colour_mode == 1 { 16 } else { 32 };
    let base = 0x10000 + tile_number * 32 + ((ty / 8) * stride + tx / 8) * tile_size;
    if colour_mode == 1 {
        base + (ty % 8) * 8 + tx % 8
    } else {
        base + (ty % 8) * 4 + (tx % 8) / 2
    }
}

/// The colour of sprite texel (`tx`, `ty`), or `None` when its colour index is 0.
/// 8bpp indices select from the 256 OBJ colours; 4bpp indices (low nibble for even
/// x) from the 16 colours of the sprite's palette bank.
pub open spec fn obj_texel_colour(vram: [u8; 98304], palette: [u8; 1024], tx: int, ty: int, tiles_wide: int, colour_mode: u16, mapping_1d: bool, tile_number: int, palette_num: int) -> Option<u16> {
    let addr = obj_texel_addr(tx, ty, tiles_wide, colour_mode, mapping_1d, tile_number);
    let ci: int = if colour_mode == 1 {
        vram[addr] as int
    } else if (tx % 8) % 2 == 0 {
        (vram[addr] % 16) as int
    } else {
        (vram[addr] / 16) as int
    };
    if ci == 0 {
        None
    } else if colour_mode == 1 {
        Some(palette_colour(palette, 0x100 + ci))
    } else {
        Some(palette_colour(palette, 0x100 + palette_num * 16 + ci))
    }
}

/// The OBJ horizontal (MOSAIC bits 11-8) and vertical (bits 15-12) mosaic sizes.
pub open spec fn obj_mosaic(mosaic: u16) -> (int, int) {
    (((mosaic >> 8) & 0xF) + 1, ((mosaic >> 12) & 0xF) + 1)
}

/// What the decoded sprite `a` puts at screen pixel (`x`, `line`): colour,
/// priority, semi-transparency and whether it is an OBJ-window sprite; `None` when
/// it does not show there or the texel is transparent.
pub open spec fn obj_attrs_hit(a: ObjAttrs, vram: [u8; 98304], palette: [u8; 1024], mapping_1d: bool, mh: int, mv: int, line: usize, x: int) -> Option<(u16, u8, bool, bool)> {
    match obj_sample(a, mh, mv, line, x) {
        None => None,
        Some((tx, ty)) => match obj_texel_colour(
            vram,
            palette,
            tx,
            ty,
            (a.width / 8) as int,
            a.colour_mode,
            mapping_1d,
            a.tile_number as int,
            a.palette_num as int,
        ) {
            None => None,
            Some(c) => Some((c, a.priority, a.is_semi, a.is_objwin)),
        },
    }
}

/// What sprite `i` puts at screen pixel (`x`, `line`) (see `obj_attrs_hit`);
/// `None` also when sprites are off (DISPCNT bit 12) or the entry never shows.
/// DISPCNT bit 6 selects 1D tile mapping.
pub open spec fn obj_hit(oam: [u8; 1024], vram: [u8; 98304], palette: [u8; 1024], dispcnt: u16, mosaic: u16, line: usize, i: int, x: int) -> Option<(u16, u8, bool, bool)> {
    if (dispcnt >> 12) & 1 == 0 {
        None
    } else {
        match obj_attrs(oam, i) {
            None => None,
            Some(a) => obj_attrs_hit(
                a,
                vram,
                palette,
                (dispcnt >> 6) & 1 == 1,
                obj_mosaic(mosaic).0,
                obj_mosaic(mosaic).1,
                line,
                x,
            ),
        }
    }
}

/// The OBJ-buffer pixel `x` of `p`: colour, priority, semi-transparency, window.
pub open spec fn obj_px(p: PPU, x: int) -> (u16, u8, bool, bool) {
    (p.obj_color[x], p.obj_priority[x], p.obj_semi[x], p.obj_window[x])
}

/// Whether every texel that sprite `a` samples on `line` lies in VRAM.
pub open spec fn obj_fits(a: ObjAttrs, mapping_1d: bool, mh: int, mv: int, line: usize) -> bool {
    forall|x: int|
        0 <= x < 240 ==> match #[trigger] obj_sample(a, mh, mv, line, x) {
            None => true,
            Some((tx, ty)) => obj_texel_addr(tx, ty, (a.width / 8) as int, a.colour_mode, mapping_1d, a.tile_number as int) < 98304,
        }
}

/// One OBJ-buffer pixel (colour, priority, semi-transparency, OBJ window) after a
/// sprite's hit: an OBJ-window sprite only marks the window; another sprite takes
/// the pixel only with a strictly better (lower) priority, so that of equal
/// priorities the lower OAM index wins.
pub open spec fn obj_step(s: (u16, u8, bool, bool), hit: Option<(u16, u8, bool, bool)>) -> (u16, u8, bool, bool) {
    match hit {
        None => s,
        Some((c, pr, semi, win)) => if win {
            (s.0, s.1, s.2, true)
        } else if s.1 > pr {
            (c, pr, semi, s.3)
        } else {
            s
        },
    }
}

/// An OBJ-buffer pixel after the hits `hits(0)`..`hits(n - 1)` in turn, from `s0`.
pub open spec fn obj_fold(s0: (u16, u8, bool, bool), hits: spec_fn(int) -> Option<(u16, u8, bool, bool)>, n: nat) -> (u16, u8, bool, bool)
    decreases n,
{
    if n == 0 {
        s0
    } else {
        obj_step(obj_fold(s0, hits, (n - 1) as nat), hits(n - 1))
    }
}

/// The OBJ-buffer pixel `x` after sprites 0..n are drawn over `p`'s buffers.
pub open spec fn obj_layer(p: PPU, oam: [u8; 1024], vram: [u8; 98304], palette: [u8; 1024], dispcnt: u16, mosaic: u16, line: usize, n: nat, x: int) -> (u16, u8, bool, bool) {
    obj_fold(obj_px(p, x), |i: int| obj_hit(oam, vram, palette, dispcnt, mosaic, line, i, x), n)
}

/// Whether every texel that the sprites sample on `line` lies in VRAM.
pub open spec fn sprites_fit(oam: [u8; 1024], dispcnt: u16, mosaic: u16, line: usize) -> bool {
    (dispcnt >> 12) & 1 == 1 ==> forall|i: int|
        0 <= i < 128 ==> match #[trigger] obj_attrs(oam, i) {
            None => true,
            Some(a) => obj_fits(a, (dispcnt >> 6) & 1 == 1, obj_mosaic(mosaic).0, obj_mosaic(mosaic).1, line),
        }
}

/// Whether `q` is `p` with OBJ pixel `x` of every column replaced by `obj_layer`
/// after all 128 sprites; nothing else changes.
pub open spec fn sprites_drawn(p: PPU, q: PPU, oam: [u8; 1024], vram: [u8; 98304], palette: [u8; 1024], dispcnt: u16, mosaic: u16, line: usize) -> bool {
    &&& q == (PPU {
        obj_color: q.obj_color,
        obj_priority: q.obj_priority,
        obj_semi: q.obj_semi,
        obj_window: q.obj_window,
        ..p
    })
    &&& forall|x: int|
        0 <= x < 240 ==> obj_px(q, x) == #[trigger] obj_layer(p, oam, vram, palette, dispcnt, mosaic, line, 128, x)
}

/// Whether a sprite hit comes from an OBJ-window sprite.
pub open spec fn window_hit(h: Option<(u16, u8, bool, bool)>) -> bool {
    match h {
        Some(v) => v.3,
        None => false,
    }
}

/// The resolution of a sequence of hits at one pixel (see
/// `lemma_obj_priority_resolution`).
proof fn lemma_fold_resolution(s0: (u16, u8, bool, bool), hits: spec_fn(int) -> Option<(u16, u8, bool, bool)>, n: nat)
    ensures
        ({
            let s = obj_fold(s0, hits, n);
            &&& s.1 <= s0.1
            &&& forall|i: int|
                0 <= i < n ==> match #[trigger] hits(i) {
                    Some(h) => !h.3 ==> s.1 <= h.1,
                    None => true,
                }
            &&& s.3 == (s0.3 || exists|i: int| 0 <= i < n && window_hit(#[trigger] hits(i)))
            &&& s.1 == s0.1 ==> s.0 == s0.0 && s.2 == s0.2
            &&& s.1 < s0.1 ==> exists|i: int|
                0 <= i < n && #[trigger] hits(i) == Some((s.0, s.1, s.2, false)) && forall|j: int|
                    0 <= j < i ==> match #[trigger] hits(j) {
                        Some(h) => !h.3 ==> s.1 < h.1,
                        None => true,
                    }
        }),
    decreases n,
{
    if n > 0 {
        let m = (n - 1) as nat;
        lemma_fold_resolution(s0, hits, m);
        let t = obj_fold(s0, hits, m);
        let s = obj_fold(s0, hits, n);
        let hit = hits(m as int);
        assert(s == obj_step(t, hit));
        if s.3 && !s0.3 && !t.3 {
            assert(window_hit(hit));
        }
        if t.3 && !s0.3 {
            let i = choose|i: int| 0 <= i < m && window_hit(#[trigger] hits(i));
            assert(0 <= i < n);
        }
        if s.1 < s0.1 {
            if s.1 < t.1 {
                assert forall|j: int| 0 <= j < m implies match #[trigger] hits(j) {
                    Some(h) => !h.3 ==> s.1 < h.1,
                    None => true,
                } by {}
                assert(hits(m as int) == Some((s.0, s.1, s.2, false)));
            } else {
                let i = choose|i: int|
                    0 <= i < m && #[trigger] hits(i) == Some((t.0, t.1, t.2, false)) && forall|j: int|
                        0 <= j < i ==> match #[trigger] hits(j) {
                            Some(h) => !h.3 ==> t.1 < h.1,
                            None => true,
                        };
                assert(t == (s.0, s.1, s.2, t.3));
            }
        }
    }
}

/// How sprites resolve at a pixel: after sprites 0..n the OBJ pixel has the best
/// (lowest) priority among the pixel's starting priority and the sprites that draw
/// there (OBJ-window sprites aside); when that beats the starting priority its
/// colour and semi-transparency are those of the first sprite, in OAM order, that
/// reached it, and otherwise colour and semi-transparency are unchanged. The OBJ
/// window is marked exactly when it was marked or an OBJ-window sprite covers the
/// pixel.
pub proof fn lemma_obj_priority_resolution(p: PPU, oam: [u8; 1024], vram: [u8; 98304], palette: [u8; 1024], dispcnt: u16, mosaic: u16, line: usize, n: nat, x: int)
    ensures
        ({
            let s = obj_layer(p, oam, vram, palette, dispcnt, mosaic, line, n, x);
            &&& s.1 <= p.obj_priority[x]
            &&& forall|i: int|
                0 <= i < n ==> match #[trigger] obj_hit(oam, vram, palette, dispcnt, mosaic, line, i, x) {
                    Some(h) => !h.3 ==> s.1 <= h.1,
                    None => true,
                }
            &&& s.3 == (p.obj_window[x] || exists|i: int|
                0 <= i < n && window_hit(#[trigger] obj_hit(oam, vram, palette, dispcnt, mosaic, line, i, x)))
            &&& s.1 == p.obj_priority[x] ==> s.0 == p.obj_color[x] && s.2 == p.obj_semi[x]
            &&& s.1 < p.obj_priority[x] ==> exists|i: int|
                0 <= i < n && #[trigger] obj_hit(oam, vram, palette, dispcnt, mosaic, line, i, x) == Some(
                    (s.0, s.1, s.2, false),
                ) && forall|j: int|
                    0 <= j < i ==> match #[trigger] obj_hit(oam, vram, palette, dispcnt, mosaic, line, j, x) {
                        Some(h) => !h.3 ==> s.1 < h.1,
                        None => true,
                    }
        }),
{
    let hits = |i: int| obj_hit(oam, vram, palette, dispcnt, mosaic, line, i, x);
    lemma_fold_resolution(obj_px(p, x), hits, n);
    let s = obj_fold(obj_px(p, x), hits, n);
    assert forall|i: int| 0 <= i < n implies match #[trigger] obj_hit(oam, vram, palette, dispcnt, mosaic, line, i, x) {
        Some(h) => !h.3 ==> s.1 <= h.1,
        None => true,
    } by {
        assert(hits(i) == obj_hit(oam, vram, palette, dispcnt, mosaic, line, i, x));
    }
    if s.3 && !p.obj_window[x] {
        let i = choose|i: int| 0 <= i < n && window_hit(#[trigger] hits(i));
        assert(hits(i) == obj_hit(oam, vram, palette, dispcnt, mosaic, line, i, x));
    }
    if !s.3 {
        assert forall|i: int| 0 <= i < n implies !window_hit(#[trigger] obj_hit(oam, vram, palette, dispcnt, mosaic, line, i, x)) by {
            assert(hits(i) == obj_hit(oam, vram, palette, dispcnt, mosaic, line, i, x));
        }
    }
    if s.1 < p.obj_priority[x] {
        let i = choose|i: int|
            0 <= i < n && #[trigger] hits(i) == Some((s.0, s.1, s.2, false)) && forall|j: int|
                0 <= j < i ==> match #[trigger] hits(j) {
                    Some(h) => !h.3 ==> s.1 < h.1,
                    None => true,
                };
        assert(hits(i) == obj_hit(oam, vram, palette, dispcnt, mosaic, line, i, x));
        assert forall|j: int| 0 <= j < i implies match #[trigger] obj_hit(oam, vram, palette, dispcnt, mosaic, line, j, x) {
            Some(h) => !h.3 ==> s.1 < h.1,
            None => true,
        } by {
            assert(hits(j) == obj_hit(oam, vram, palette, dispcnt, mosaic, line, j, x));
        }
    }
}

/// With sprites off, drawing changes no OBJ pixel.
proof fn lemma_obj_layer_off(p: PPU, oam: [u8; 1024], vram: [u8; 98304], palette: [u8; 1024], dispcnt: u16, mosaic: u16, line: usize, n: nat, x: int)
    requires
        (dispcnt >> 12) & 1 == 0,
    ensures
        obj_layer(p, oam, vram, palette, dispcnt, mosaic, line, n, x) == obj_px(p, x),
    decreases n,
{
    if n > 0 {
        lemma_obj_layer_off(p, oam, vram, palette, dispcnt, mosaic, line, (n - 1) as nat, x);
    }
}

/// Width and height of a sprite (see `obj_dims`).
fn obj_dims_exec(shape: u16, size: u16) -> (r: (usize, usize))
    ensures
        r == obj_dims(shape, size),
{
    if shape == 0 {
        if size == 0 { (8, 8) } else if size == 1 { (16, 16) } else if size == 2 { (32, 32) } else { (64, 64) }
    } else if shape == 1 {
        if size == 0 { (16, 8) } else if size == 1 { (32, 8) } else if size == 2 { (32, 16) } else { (64, 32) }
    } else {
        if size == 0 { (8, 16) } else if size == 1 { (8, 32) } else if size == 2 { (16, 32) } else { (32, 64) }
    }
}

/// Decodes OAM entry `i` (see `obj_attrs`).
fn decode_obj(oam: &[u8; 1024], i: usize) -> (r: Option<ObjAttrs>)
    requires
        i < 128,
    ensures
        r == obj_attrs(*oam, i as int),
        r matches Some(a) ==> obj_wf(a),
{
    let base = i * 8;
    let attr0 = read_io16(oam, base);
    let attr1 = read_io16(oam, base + 2);
    let attr2 = read_io16(oam, base + 4);
    let rs_bits = (attr0 >> 8) & 0b11;
    if rs_bits == 0b10 {
        return None;
    }
    let affine = rs_bits & 0b01 != 0;
    let double_size = rs_bits == 0b11;
    assert(rs_bits == 3 ==> rs_bits & 1 != 0) by (bit_vector);
    let gfx_mode = (attr0 >> 10) & 0b11;
    if gfx_mode == 0b11 {
        return None;
    }
    let shape = (attr0 >> 14) & 0b11;
    if shape == 0b11 {
        return None;
    }
    let size = (attr1 >> 14) & 0b11;
    let (width, height) = obj_dims_exec(shape, size);
    let y_coordinate = attr0 & 0xFF;
    let x_coordinate = attr1 & 0x1FF;
    let y: i32 = if y_coordinate >= 160 {
        y_coordinate as i32 - 256
    } else {
        y_coordinate as i32
    };
    let x: i32 = if x_coordinate > 255 {
        x_coordinate as i32 - 512
    } else {
        x_coordinate as i32
    };
    let (pa, pb, pc, pd) = if affine {
        let n = ((attr1 >> 9) & 0x1F) as usize;
        (
            PPU::affine_param(oam, n, 0),
            PPU::affine_param(oam, n, 1),
            PPU::affine_param(oam, n, 2),
            PPU::affine_param(oam, n, 3),
        )
    } else {
        (0, 0, 0, 0)
    };
    Some(ObjAttrs {
        affine,
        is_objwin: gfx_mode == 0b10,
        is_semi: gfx_mode == 0b01,
        mosaic: (attr0 >> 12) & 1 == 1,
        y,
        x,
        colour_mode: (attr0 >> 13) & 1,
        width,
        height,
        box_w: if double_size { width * 2 } else { width },
        box_h: if double_size { height * 2 } else { height },
        tile_number: (attr2 & 0x3FF) as usize,
        priority: ((attr2 >> 10) & 0b11) as u8,
        palette_num: ((attr2 >> 12) & 0xF) as usize,
        h_flip: !affine && (attr1 >> 12) & 1 == 1,
        v_flip: !affine && (attr1 >> 13) & 1 == 1,
        pa,
        pb,
        pc,
        pd,
    })
}

/// The texel that box pixel (`box_px`, `box_py`) of sprite `a` shows (see
/// `obj_sample_at`).
fn obj_sample_exec(a: &ObjAttrs, mos_h: usize, mos_v: usize, box_px: usize, box_py: usize) -> (r: Option<(usize, usize)>)
    requires
        obj_wf(*a),
        box_px < a.box_w,
        box_py < a.box_h,
        1 <= mos_h <= 16,
        1 <= mos_v <= 16,
    ensures
        match r {
            None => obj_sample_at(*a, mos_h as int, mos_v as int, box_px as int, box_py as int) is None,
            Some((tx, ty)) => obj_sample_at(*a, mos_h as int, mos_v as int, box_px as int, box_py as int)
                == Some((tx as int, ty as int)) && tx < a.width && ty < a.height,
        },
{
    proof {
        vstd::arithmetic::div_mod::lemma_mod_decreases(box_px as nat, mos_h as nat);
        vstd::arithmetic::div_mod::lemma_mod_decreases(box_py as nat, mos_v as nat);
    }
    let (samp_px, samp_py) = if a.mosaic {
        (box_px - box_px % mos_h, box_py - box_py % mos_v)
    } else {
        (box_px, box_py)
    };
    if a.affine {
        let ox = samp_px as i32 - a.box_w as i32 / 2;
        let oy = samp_py as i32 - a.box_h as i32 / 2;
        assert(-0x8000 * 128 <= a.pa * ox <= 0x8000 * 128 && -0x8000 * 128 <= a.pb * oy <= 0x8000 * 128
            && -0x8000 * 128 <= a.pc * ox <= 0x8000 * 128 && -0x8000 * 128 <= a.pd * oy <= 0x8000 * 128)
            by (nonlinear_arith)
            requires
                -0x8000 <= a.pa < 0x8000,
                -0x8000 <= a.pb < 0x8000,
                -0x8000 <= a.pc < 0x8000,
                -0x8000 <= a.pd < 0x8000,
                -128 <= ox <= 128,
                -128 <= oy <= 128,
        ;
        let sum_x = a.pa * ox + a.pb * oy;
        let sum_y = a.pc * ox + a.pd * oy;
        proof {
            lemma_floor256(sum_x);
            lemma_floor256(sum_y);
        }
        let tx = (sum_x >> 8) + a.width as i32 / 2;
        let ty = (sum_y >> 8) + a.height as i32 / 2;
        if tx < 0 || tx >= a.width as i32 || ty < 0 || ty >= a.height as i32 {
            return None;
        }
        Some((tx as usize, ty as usize))
    } else {
        let tx = if a.h_flip {
            a.width - 1 - samp_px
        } else {
            samp_px
        };
        let ty = if a.v_flip {
            a.height - 1 - samp_py
        } else {
            samp_py
        };
        Some((tx, ty))
    }
}

impl PPU {
    /// Component `k` of OBJ affine matrix `n` (see `obj_param`).
    fn affine_param(oam: &[u8; 1024], n: usize, k: usize) -> (r: i32)
        requires
            n < 32,
            k < 4,
        ensures
            r == obj_param(*oam, n as int, k as int),
    {
        let off = n * 32 + 6 + k * 8;
        let raw = read_io16(oam, off);
        raw as i16 as i32
    }

    /// The colour of a sprite texel (see `obj_texel_colour`); the texel must lie in VRAM.
    fn obj_texel(
        vram: &[u8; 98304],
        palette_ram: &[u8; 1024],
        tex_x: usize,
        tex_y: usize,
        tiles_wide: usize,
        colour_mode: u16,
        mapping_1d: bool,
        tile_number: usize,
        palette_num: usize,
    ) -> (r: Option<u16>)
        requires
            tex_x < 64,
            tex_y < 64,
            tiles_wide <= 8,
            colour_mode <= 1,
            tile_number < 1024,
            palette_num < 16,
            obj_texel_addr(tex_x as int, tex_y as int, tiles_wide as int, colour_mode, mapping_1d, tile_number as int) < 98304,
        ensures
            r == obj_texel_colour(
                *vram,
                *palette_ram,
                tex_x as int,
                tex_y as int,
                tiles_wide as int,
                colour_mode,
                mapping_1d,
                tile_number as int,
                palette_num as int,
            ),
    {
        let tile_x = tex_x / 8;
        let tile_y = tex_y / 8;
        let pixel_x = tex_x % 8;
        let pixel_y = tex_y % 8;
        let tile_size: usize = if colour_mode == 1 {
            64
        } else {
            32
        };
        let stride: usize = if mapping_1d {
            tiles_wide
        } else if colour_mode == 1 {
            16
        } else {
            32
        };
        assert((tile_y * stride + tile_x) * tile_size <= (7 * 32 + 7) * 64) by (nonlinear_arith)
            requires
                tile_y <= 7,
                tile_x <= 7,
                stride <= 32,
                tile_size <= 64,
        ;
        let tile_base = 0x10000 + tile_number * 32 + (tile_y * stride + tile_x) * tile_size;
        let colour_index: usize = if colour_mode == 1 {
            vram[tile_base + pixel_y * 8 + pixel_x] as usize
        } else {
            let byte = vram[tile_base + pixel_y * 4 + pixel_x / 2];
            proof {
                lemma_nibbles(byte);
            }
            if pixel_x % 2 == 0 {
                (byte & 0xF) as usize
            } else {
                ((byte >> 4) & 0xF) as usize
            }
        };
        if colour_index == 0 {
            return None;
        }
        let palette_offset = if colour_mode == 1 {
            0x200 + colour_index * 2
        } else {
            0x200 + palette_num * 32 + colour_index * 2
        };
        let plo = palette_ram[palette_offset] as u16;
        let phi = palette_ram[palette_offset + 1] as u16;
        proof {
            lemma_bytes_u16(plo, phi);
        }
        Some(plo | (phi << 8))
    }
}

impl PPU {
    /// Draws the pixels of sprite `a` on `line` into the OBJ buffer, each by
    /// `obj_step`; the sprite's bounding box must cover the line.
    fn draw_obj(
        &mut self,
        a: &ObjAttrs,
        vram: &[u8; 98304],
        palette_ram: &[u8; 1024],
        mapping_1d: bool,
        mos_h: usize,
        mos_v: usize,
        line: usize,
    )
        requires
            obj_wf(*a),
            1 <= mos_h <= 16,
            1 <= mos_v <= 16,
            a.y <= line_i32(line) < a.y + a.box_h,
            obj_fits(*a, mapping_1d, mos_h as int, mos_v as int, line),
        ensures
            *final(self) == (PPU {
                obj_color: final(self).obj_color,
                obj_priority: final(self).obj_priority,
                obj_semi: final(self).obj_semi,
                obj_window: final(self).obj_window,
                ..*old(self)
            }),
            forall|x: int|
                0 <= x < 240 ==> obj_px(*final(self), x) == obj_step(
                    obj_px(*old(self), x),
                    #[trigger] obj_attrs_hit(*a, *vram, *palette_ram, mapping_1d, mos_h as int, mos_v as int, line, x),
                ),
    {
        let ghost p0 = *self;
        let line_i = line as i32;
        let box_py = (line_i - a.y) as usize;
        let mut box_px: usize = 0;
        while box_px < a.box_w
            invariant
                obj_wf(*a),
                1 <= mos_h <= 16,
                1 <= mos_v <= 16,
                a.y <= line_i32(line) < a.y + a.box_h,
                line_i == line_i32(line),
                box_py == line_i32(line) - a.y,
                obj_fits(*a, mapping_1d, mos_h as int, mos_v as int, line),
                box_px <= a.box_w,
                *self == (PPU {
                    obj_color: self.obj_color,
                    obj_priority: self.obj_priority,
                    obj_semi: self.obj_semi,
                    obj_window: self.obj_window,
                    ..p0
                }),
                forall|x: int|
                    0 <= x < 240 ==> #[trigger] obj_px(*self, x) == if a.x <= x < a.x + box_px {
                        obj_step(
                            obj_px(p0, x),
                            obj_attrs_hit(*a, *vram, *palette_ram, mapping_1d, mos_h as int, mos_v as int, line, x),
                        )
                    } else {
                        obj_px(p0, x)
                    },
            decreases a.box_w - box_px,
        {
            let ghost s_before = *self;
            let screen_x = a.x + box_px as i32;
            let ghost sx_i = screen_x as int;
            let ghost hit = obj_attrs_hit(*a, *vram, *palette_ram, mapping_1d, mos_h as int, mos_v as int, line, sx_i);
            if screen_x >= 0 && screen_x < 240 {
                let sx = screen_x as usize;
                assert(obj_sample(*a, mos_h as int, mos_v as int, line, sx_i) == obj_sample_at(
                    *a,
                    mos_h as int,
                    mos_v as int,
                    box_px as int,
                    box_py as int,
                ));
                let ghost before = obj_px(*self, sx_i);
                assert(before == obj_px(p0, sx_i));
                match obj_sample_exec(a, mos_h, mos_v, box_px, box_py) {
                    None => {},
                    Some((tx, ty)) => {
                        assert(obj_sample(*a, mos_h as int, mos_v as int, line, sx_i) == Some((tx as int, ty as int)));
                        match Self::obj_texel(
                            vram,
                            palette_ram,
                            tx,
                            ty,
                            a.width / 8,
                            a.colour_mode,
                            mapping_1d,
                            a.tile_number,
                            a.palette_num,
                        ) {
                            None => {},
                            Some(c) => {
                                if a.is_objwin {
                                    self.obj_window[sx] = true;
                                } else if self.obj_priority[sx] > a.priority {
                                    self.obj_color[sx] = c;
                                    self.obj_priority[sx] = a.priority;
                                    self.obj_semi[sx] = a.is_semi;
                                }
                            },
                        }
                    },
                }
                assert(obj_px(*self, sx_i) == obj_step(before, hit));
                assert forall|x: int| 0 <= x < 240 && x != sx_i implies #[trigger] obj_px(*self, x) == obj_px(
                    s_before,
                    x,
                ) by {}
                assert forall|x: int| 0 <= x < 240 implies #[trigger] obj_px(*self, x) == if a.x <= x < a.x + box_px + 1 {
                    obj_step(
                        obj_px(p0, x),
                        obj_attrs_hit(*a, *vram, *palette_ram, mapping_1d, mos_h as int, mos_v as int, line, x),
                    )
                } else {
                    obj_px(p0, x)
                } by {
                    if x != sx_i {
                        assert(obj_px(s_before, x) == obj_px(*self, x));
                    }
                }
            }
            box_px += 1;
        }
    }
}

impl PPU {
    /// Draws the sprites of `line` into the OBJ buffer (see `sprites_drawn`): OAM
    /// entries in ascending order, each pixel taken only by a strictly better
    /// priority, OBJ-window sprites marking the OBJ window. Every sampled texel must
    /// lie in VRAM.
    pub fn render_sprites(
        &mut self,
        oam: &[u8; 1024],
        palette_ram: &[u8; 1024],
        vram: &[u8; 98304],
        dispcnt: u16,
        mosaic: u16,
        line: usize,
    )
        requires
            sprites_fit(*oam, dispcnt, mosaic, line),
        ensures
            sprites_drawn(*old(self), *final(self), *oam, *vram, *palette_ram, dispcnt, mosaic, line),
    {
        let ghost p0 = *self;
        if (dispcnt >> 12) & 1 == 0 {
            proof {
                assert forall|x: int| 0 <= x < 240 implies obj_px(p0, x) == #[trigger] obj_layer(
                    p0,
                    *oam,
                    *vram,
                    *palette_ram,
                    dispcnt,
                    mosaic,
                    line,
                    128,
                    x,
                ) by {
                    lemma_obj_layer_off(p0, *oam, *vram, *palette_ram, dispcnt, mosaic, line, 128, x);
                }
            }
            return;
        }
        let obj_mos_h = ((mosaic >> 8) & 0xF) as usize + 1;
        let obj_mos_v = ((mosaic >> 12) & 0xF) as usize + 1;
        let mapping_1d = (dispcnt >> 6) & 1 == 1;
        let mut i: usize = 0;
        while i < 128
            invariant
                i <= 128,
                (dispcnt >> 12) & 1 == 1,
                sprites_fit(*oam, dispcnt, mosaic, line),
                obj_mos_h == obj_mosaic(mosaic).0,
                obj_mos_v == obj_mosaic(mosaic).1,
                1 <= obj_mos_h <= 16,
                1 <= obj_mos_v <= 16,
                mapping_1d == ((dispcnt >> 6) & 1 == 1),
                *self == (PPU {
                    obj_color: self.obj_color,
                    obj_priority: self.obj_priority,
                    obj_semi: self.obj_semi,
                    obj_window: self.obj_window,
                    ..p0
                }),
                forall|x: int|
                    0 <= x < 240 ==> obj_px(*self, x) == #[trigger] obj_layer(
                        p0,
                        *oam,
                        *vram,
                        *palette_ram,
                        dispcnt,
                        mosaic,
                        line,
                        i as nat,
                        x,
                    ),
            decreases 128 - i,
        {
            let ghost s_before = *self;
            let decoded = decode_obj(oam, i);
            assert(obj_attrs(*oam, i as int) == decoded);
            match decoded {
                None => {},
                Some(a) => {
                    let line_i = line as i32;
                    if !(line_i < a.y || line_i >= a.y + a.box_h as i32) {
                        self.draw_obj(&a, vram, palette_ram, mapping_1d, obj_mos_h, obj_mos_v, line);
                    } else {
                        assert forall|x: int| 0 <= x < 240 implies #[trigger] obj_attrs_hit(
                            a,
                            *vram,
                            *palette_ram,
                            mapping_1d,
                            obj_mos_h as int,
                            obj_mos_v as int,
                            line,
                            x,
                        ) is None by {}
                    }
                },
            }
            assert forall|x: int| 0 <= x < 240 implies obj_px(*self, x) == #[trigger] obj_layer(
                p0,
                *oam,
                *vram,
                *palette_ram,
                dispcnt,
                mosaic,
                line,
                (i + 1) as nat,
                x,
            ) by {
                assert(obj_px(s_before, x) == obj_layer(
                    p0,
                    *oam,
                    *vram,
                    *palette_ram,
                    dispcnt,
                    mosaic,
                    line,
                    i as nat,
                    x,
                ));
                let _ = obj_attrs_hit(
                    decoded->0,
                    *vram,
                    *palette_ram,
                    mapping_1d,
                    obj_mos_h as int,
                    obj_mos_v as int,
                    line,
                    x,
                );
            }
            i += 1;
        }
    }
}

/// The VRAM byte of a sprite texel (see `obj_texel_addr`).
fn obj_texel_addr_exec(tex_x: usize, tex_y: usize, tiles_wide: usize, colour_mode: u16, mapping_1d: bool, tile_number: usize) -> (r: usize)
    requires
        tex_x < 64,
        tex_y < 64,
        tiles_wide <= 8,
        tile_number < 1024,
    ensures
        r == obj_texel_addr(tex_x as int, tex_y as int, tiles_wide as int, colour_mode, mapping_1d, tile_number as int),
{
    let tile_size: usize = if colour_mode == 1 {
        64
    } else {
        32
    };
    let stride: usize = if mapping_1d {
        tiles_wide
    } else if colour_mode == 1 {
        16
    } else {
        32
    };
    let tile_x = tex_x / 8;
    let tile_y = tex_y / 8;
    assert((tile_y * stride + tile_x) * tile_size <= (7 * 32 + 7) * 64) by (nonlinear_arith)
        requires
            tile_y <= 7,
            tile_x <= 7,
            stride <= 32,
            tile_size <= 64,
    ;
    let base = 0x10000 + tile_number * 32 + (tile_y * stride + tile_x) * tile_size;
    if colour_mode == 1 {
        base + (tex_y % 8) * 8 + tex_x % 8
    } else {
        base + (tex_y % 8) * 4 + (tex_x % 8) / 2
    }
}

impl PPU {
    /// Whether every texel that the sprites sample on `line` lies in VRAM (see
    /// `sprites_fit`), the condition under which `render_sprites` can draw the line.
    pub fn sprites_in_vram(oam: &[u8; 1024], dispcnt: u16, mosaic: u16, line: usize) -> (r: bool)
        ensures
            r == sprites_fit(*oam, dispcnt, mosaic, line),
    {
        if (dispcnt >> 12) & 1 == 0 {
            return true;
        }
        let obj_mos_h = ((mosaic >> 8) & 0xF) as usize + 1;
        let obj_mos_v = ((mosaic >> 12) & 0xF) as usize + 1;
        let mapping_1d = (dispcnt >> 6) & 1 == 1;
        let line_i = line as i32;
        let mut i: usize = 0;
        while i < 128
            invariant
                i <= 128,
                (dispcnt >> 12) & 1 == 1,
                obj_mos_h == obj_mosaic(mosaic).0,
                obj_mos_v == obj_mosaic(mosaic).1,
                1 <= obj_mos_h <= 16,
                1 <= obj_mos_v <= 16,
                mapping_1d == ((dispcnt >> 6) & 1 == 1),
                line_i == line_i32(line),
                forall|j: int|
                    0 <= j < i ==> match #[trigger] obj_attrs(*oam, j) {
                        None => true,
                        Some(a) => obj_fits(a, mapping_1d, obj_mos_h as int, obj_mos_v as int, line),
                    },
            decreases 128 - i,
        {
            let decoded = decode_obj(oam, i);
            match decoded {
                None => {},
                Some(a) => {
                    if !(line_i < a.y || line_i >= a.y + a.box_h as i32) {
                        let box_py = (line_i - a.y) as usize;
                        let mut box_px: usize = 0;
                        while box_px < a.box_w
                            invariant
                                obj_wf(a),
                                obj_attrs(*oam, i as int) == Some(a),
                                (dispcnt >> 12) & 1 == 1,
                                1 <= obj_mos_h <= 16,
                                1 <= obj_mos_v <= 16,
                                obj_mos_h == obj_mosaic(mosaic).0,
                                obj_mos_v == obj_mosaic(mosaic).1,
                                mapping_1d == ((dispcnt >> 6) & 1 == 1),
                                a.y <= line_i32(line) < a.y + a.box_h,
                                box_py == line_i32(line) - a.y,
                                i < 128,
                                box_px <= a.box_w,
                                forall|x: int|
                                    0 <= x < 240 && a.x <= x < a.x + box_px ==> match #[trigger] obj_sample(
                                        a,
                                        obj_mos_h as int,
                                        obj_mos_v as int,
                                        line,
                                        x,
                                    ) {
                                        None => true,
                                        Some((tx, ty)) => obj_texel_addr(
                                            tx,
                                            ty,
                                            (a.width / 8) as int,
                                            a.colour_mode,
                                            mapping_1d,
                                            a.tile_number as int,
                                        ) < 98304,
                                    },
                            decreases a.box_w - box_px,
                        {
                            let screen_x = a.x + box_px as i32;
                            if screen_x >= 0 && screen_x < 240 {
                                assert(obj_sample(a, obj_mos_h as int, obj_mos_v as int, line, screen_x as int)
                                    == obj_sample_at(a, obj_mos_h as int, obj_mos_v as int, box_px as int, box_py as int));
                                match obj_sample_exec(&a, obj_mos_h, obj_mos_v, box_px, box_py) {
                                    None => {},
                                    Some((tx, ty)) => {
                                        let addr = obj_texel_addr_exec(tx, ty, a.width / 8, a.colour_mode, mapping_1d, a.tile_number);
                                        if addr >= 98304 {
                                            proof {
                                                assert(!obj_fits(a, mapping_1d, obj_mos_h as int, obj_mos_v as int, line));
                                                assert(obj_attrs(*oam, i as int) == Some(a));
                                            }
                                            return false;
                                        }
                                    },
                                }
                            }
                            box_px += 1;
                        }
                        assert(obj_fits(a, mapping_1d, obj_mos_h as int, obj_mos_v as int, line));
                    } else {
                        assert(obj_fits(a, mapping_1d, obj_mos_h as int, obj_mos_v as int, line));
                    }
                },
            }
            i += 1;
        }
        true
    }
}

} // verus!
