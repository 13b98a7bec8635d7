//! The scanline renderer: background layers, sprites, windows and colour effects
//! composited into a 240x160 RGB frame, and the scanline timing that drives
//! H-blank, V-blank and V-count interrupts and DMA.
use vstd::prelude::*;

pub mod blend;
pub mod compositor;
pub mod background;
pub mod modes;
pub mod sprites;
pub mod scanline;
pub mod timing;

verus! {

/// Display phase of the current scanline.
pub enum PpuMode {
    Oam,
    HBlank,
    Vblank,
}

/// Renderer state. The per-scanline layer buffers hold raw 15-bit BGR colours;
/// background buffers are stored row after row (`bg * 240 + x`). `obj_priority`
/// 4 means that no sprite covers the pixel; `win_mask` holds the six enable bits
/// (BG0-BG3, OBJ, colour effects) of each pixel.
pub struct PPU {
    pub framebuffer: [u8; 115200],
    pub vcount: u16,
    pub line_cycle: u16,
    pub mode: PpuMode,
    pub bg_color: [u16; 960],
    pub bg_opaque: [bool; 960],
    pub obj_color: [u16; 240],
    pub obj_priority: [u8; 240],
    pub obj_semi: [bool; 240],
    pub obj_window: [bool; 240],
    pub win_mask: [u8; 240],
}

impl PPU {
    /// A black frame at the start of scanline 0, with empty layer buffers and
    /// every layer enabled in the window mask.
    pub fn new() -> (p: PPU)
        ensures
            forall|i: int| 0 <= i < 115200 ==> p.framebuffer[i] == 0,
            p.vcount == 0,
            p.line_cycle == 0,
            p.mode is Oam,
            forall|i: int| 0 <= i < 960 ==> p.bg_color[i] == 0 && !p.bg_opaque[i],
            forall|x: int|
                0 <= x < 240 ==> p.obj_color[x] == 0 && p.obj_priority[x] == 4 && !p.obj_semi[x]
                    && !p.obj_window[x] && p.win_mask[x] == 0x3F,
    {
        PPU {
            framebuffer: [0; 115200],
            vcount: 0,
            line_cycle: 0,
            mode: PpuMode::Oam,
            bg_color: [0; 960],
            bg_opaque: [false; 960],
            obj_color: [0; 240],
            obj_priority: [4; 240],
            obj_semi: [false; 240],
            obj_window: [false; 240],
            win_mask: [0x3F; 240],
        }
    }
}

} // verus!
